//! Where the target keeps the three functions that the engine calls in it.

use vstd::prelude::*;
use crate::error::SyringeError;
use goblin::Object;

verus! {

/// One exported symbol of a library image.
#[derive(Debug)]
pub struct PeExport {
    /// The name of the symbol, if it is exported by name.
    pub name: Option<String>,
    /// The address of the symbol, relative to the base of the library.
    pub rva: usize,
}

/// The mathematical value of a [`PeExport`].
pub ghost struct PeExportView {
    pub name: Option<Seq<char>>,
    pub rva: usize,
}

impl View for PeExport {
    type V = PeExportView;

    open spec fn view(&self) -> PeExportView {
        PeExportView {
            name: match self.name {
                Some(name) => Some(name@),
                None => None,
            },
            rva: self.rva,
        }
    }
}

/// The values of a list of exports.
pub open spec fn exports_view(exports: Seq<PeExport>) -> Seq<PeExportView> {
    exports.map_values(|e: PeExport| e@)
}

#[verifier::external_type_specification]
#[verifier::external_body]
pub struct ExGoblinError(goblin::error::Error);

/// The exports that the parser finds in `image`, in the order of its export
/// table, if it takes `image` for a portable executable.
pub uninterp spec fn parsed_exports(image: Seq<u8>) -> Option<Seq<PeExportView>>;

/// `Object::parse`: the exports of `image` when the parser takes it for a
/// portable executable; nothing when it takes it for another kind of object,
/// and an error when it cannot parse it.
#[verifier::external_body]
fn parse_exports(image: &[u8]) -> (r: Result<Option<Vec<PeExport>>, goblin::error::Error>)
    ensures
        match r {
            Ok(Some(exports)) => parsed_exports(image@) == Some(exports_view(exports@)),
            _ => parsed_exports(image@) is None,
        },
{
    match Object::parse(image)? {
        Object::PE(pe) => Ok(
            Some(
                pe.exports.iter().map(
                    |e| PeExport { name: e.name.map(|n| n.to_string()), rva: e.rva },
                ).collect(),
            ),
        ),
        _ => Ok(None),
    }
}

/// `i` is the first export of the list that goes by `name`.
pub open spec fn is_first_named(exports: Seq<PeExportView>, name: Seq<char>, i: int) -> bool {
    &&& 0 <= i < exports.len()
    &&& exports[i].name == Some(name)
    &&& forall|j: int| 0 <= j < i ==> (#[trigger] exports[j]).name != Some(name)
}

/// The relative address of the first export that goes by `name`.
pub open spec fn export_rva(exports: Seq<PeExportView>, name: Seq<char>) -> Option<usize> {
    if exists|i: int| is_first_named(exports, name, i) {
        Some(exports[choose|i: int| is_first_named(exports, name, i)].rva)
    } else {
        None
    }
}

/// Looks up the relative address of the first export that goes by `name`.
pub fn find_export(exports: &Vec<PeExport>, name: &str) -> (r: Option<usize>)
    ensures
        r == export_rva(exports_view(exports@), name@),
{
    let wanted = name.to_owned();
    let ghost views = exports_view(exports@);
    let mut i: usize = 0;
    while i < exports.len()
        invariant
            0 <= i <= exports.len(),
            wanted@ == name@,
            views == exports_view(exports@),
            forall|j: int| 0 <= j < i ==> (#[trigger] views[j]).name != Some(name@),
        decreases exports.len() - i,
    {
        let export = &exports[i];
        assert(views[i as int] == export@);
        let found = match &export.name {
            Some(n) => *n == wanted,
            None => false,
        };
        if found {
            proof {
                assert(is_first_named(views, name@, i as int));
                let c = choose|c: int| is_first_named(views, name@, c);
                if c < i {
                    assert(views[c].name != Some(name@));
                } else if i < c {
                    assert(views[i as int].name != Some(name@));
                }
            }
            return Some(export.rva);
        }
        i += 1;
    }
    proof {
        if exists|c: int| is_first_named(views, name@, c) {
            let c = choose|c: int| is_first_named(views, name@, c);
            assert(views[c].name != Some(name@));
        }
    }
    None
}

/// What the engine knows of `kernel32.dll` in a target: where the library is
/// loaded, and how far into it `LoadLibraryW`, `FreeLibrary` and
/// `GetProcAddress` stand.
///
/// Each offset, added to the base, is an address: none of the sums wraps
/// around.
#[derive(Debug, Clone, Copy)]
pub struct InjectHelpData {
    kernel32_module: usize,
    load_library_offset: usize,
    free_library_offset: usize,
    get_proc_address_offset: usize,
}

/// The mathematical value of an [`InjectHelpData`].
pub ghost struct HelpDataView {
    pub kernel32_module: usize,
    pub load_library_offset: usize,
    pub free_library_offset: usize,
    pub get_proc_address_offset: usize,
}

impl HelpDataView {
    /// Whether the library is loaded somewhere and every function has an
    /// address.
    pub open spec fn wf(self) -> bool {
        &&& self.kernel32_module > 0
        &&& self.kernel32_module + self.load_library_offset <= usize::MAX
        &&& self.kernel32_module + self.free_library_offset <= usize::MAX
        &&& self.kernel32_module + self.get_proc_address_offset <= usize::MAX
    }

    /// The address of `LoadLibraryW` in the target.
    pub open spec fn load_library(self) -> int {
        self.kernel32_module + self.load_library_offset
    }

    /// The address of `FreeLibrary` in the target.
    pub open spec fn free_library(self) -> int {
        self.kernel32_module + self.free_library_offset
    }

    /// The address of `GetProcAddress` in the target.
    pub open spec fn get_proc_address(self) -> int {
        self.kernel32_module + self.get_proc_address_offset
    }

    /// Whether the three functions stand below `limit`.
    pub open spec fn below(self, limit: int) -> bool {
        self.load_library() < limit && self.free_library() < limit && self.get_proc_address()
            < limit
    }
}

impl View for InjectHelpData {
    type V = HelpDataView;

    closed spec fn view(&self) -> HelpDataView {
        HelpDataView {
            kernel32_module: self.kernel32_module,
            load_library_offset: self.load_library_offset,
            free_library_offset: self.free_library_offset,
            get_proc_address_offset: self.get_proc_address_offset,
        }
    }
}

/// The help data for a library at `base` whose functions stand at the three
/// addresses, if the library is loaded somewhere and none of the functions
/// stands below it.
pub open spec fn help_data_at(
    base: usize,
    load_library: usize,
    free_library: usize,
    get_proc_address: usize,
) -> Option<HelpDataView> {
    if base > 0 && load_library >= base && free_library >= base && get_proc_address >= base {
        Some(
            HelpDataView {
                kernel32_module: base,
                load_library_offset: (load_library - base) as usize,
                free_library_offset: (free_library - base) as usize,
                get_proc_address_offset: (get_proc_address - base) as usize,
            },
        )
    } else {
        None
    }
}

/// The help data for a library at `base` whose image exports the three
/// functions as `exports` says, if the library is loaded somewhere, exports
/// all three, and each has an address.
pub open spec fn help_data_in(base: usize, exports: Seq<PeExportView>) -> Option<HelpDataView> {
    match (
        export_rva(exports, "LoadLibraryW"@),
        export_rva(exports, "FreeLibrary"@),
        export_rva(exports, "GetProcAddress"@),
    ) {
        (Some(load_library), Some(free_library), Some(get_proc_address)) => {
            let data = HelpDataView {
                kernel32_module: base,
                load_library_offset: load_library,
                free_library_offset: free_library,
                get_proc_address_offset: get_proc_address,
            };
            if data.wf() {
                Some(data)
            } else {
                None
            }
        },
        _ => None,
    }
}

impl InjectHelpData {
    /// Whether the library is loaded somewhere and every function has an
    /// address.
    pub open spec fn wf(&self) -> bool {
        self@.wf()
    }

    /// The help data for a target that shares the host's `kernel32.dll`: the
    /// library stands at `base` in the host, and the three functions at the
    /// given addresses.
    pub fn from_local(
        base: usize,
        load_library: usize,
        free_library: usize,
        get_proc_address: usize,
    ) -> (r: Option<InjectHelpData>)
        ensures
            match help_data_at(base, load_library, free_library, get_proc_address) {
                Some(data) => r matches Some(d) && d@ == data && d.wf(),
                None => r is None,
            },
    {
        if base == 0 || load_library < base || free_library < base || get_proc_address < base {
            return None;
        }
        Some(
            InjectHelpData {
                kernel32_module: base,
                load_library_offset: load_library - base,
                free_library_offset: free_library - base,
                get_proc_address_offset: get_proc_address - base,
            },
        )
    }

    /// The help data for a target whose `kernel32.dll` stands at `base` and
    /// has the given exports.
    ///
    /// A library that lacks one of the three exports, or whose exports have no
    /// address in the target, cannot be used.
    pub fn from_exports(base: usize, exports: &Vec<PeExport>) -> (r: Result<
        InjectHelpData,
        SyringeError,
    >)
        ensures
            match help_data_in(base, exports_view(exports@)) {
                Some(data) => r matches Ok(d) && d@ == data && d.wf(),
                None => r matches Err(e) && e == SyringeError::PeParse,
            },
    {
        let load_library = find_export(exports, "LoadLibraryW");
        let free_library = find_export(exports, "FreeLibrary");
        let get_proc_address = find_export(exports, "GetProcAddress");
        match (load_library, free_library, get_proc_address) {
            (Some(load_library), Some(free_library), Some(get_proc_address)) => {
                if base == 0 || load_library > usize::MAX - base || free_library > usize::MAX
                    - base || get_proc_address > usize::MAX - base {
                    return Err(SyringeError::PeParse);
                }
                Ok(
                    InjectHelpData {
                        kernel32_module: base,
                        load_library_offset: load_library,
                        free_library_offset: free_library,
                        get_proc_address_offset: get_proc_address,
                    },
                )
            },
            _ => Err(SyringeError::PeParse),
        }
    }

    /// The help data for a target whose `kernel32.dll` stands at `base` and
    /// was loaded from the file with the contents `image`.
    ///
    /// An image that is no portable executable cannot be used, nor one that
    /// [`from_exports`](Self::from_exports) refuses.
    pub fn from_image(base: usize, image: &[u8]) -> (r: Result<InjectHelpData, SyringeError>)
        ensures
            match parsed_exports(image@) {
                Some(exports) => match help_data_in(base, exports) {
                    Some(data) => r matches Ok(d) && d@ == data && d.wf(),
                    None => r matches Err(e) && e == SyringeError::PeParse,
                },
                None => r matches Err(e) && e == SyringeError::PeParse,
            },
    {
        match parse_exports(image) {
            Ok(Some(exports)) => Self::from_exports(base, &exports),
            _ => Err(SyringeError::PeParse),
        }
    }

    /// Whether the three functions stand below `limit`.
    pub fn below(&self, limit: u64) -> (r: bool)
        requires
            self.wf(),
        ensures
            r == self@.below(limit as int),
    {
        ((self.kernel32_module + self.load_library_offset) as u64) < limit && ((
        self.kernel32_module + self.free_library_offset) as u64) < limit && ((self.kernel32_module
            + self.get_proc_address_offset) as u64) < limit
    }

    /// The address at which the library is loaded.
    pub fn kernel32_module(&self) -> (r: usize)
        ensures
            r == self@.kernel32_module,
    {
        self.kernel32_module
    }

    /// The address of `LoadLibraryW` in the target.
    pub fn get_load_library_fn_ptr(&self) -> (r: usize)
        requires
            self.wf(),
        ensures
            r == self@.load_library(),
    {
        self.kernel32_module + self.load_library_offset
    }

    /// The address of `FreeLibrary` in the target.
    pub fn get_free_library_fn_ptr(&self) -> (r: usize)
        requires
            self.wf(),
        ensures
            r == self@.free_library(),
    {
        self.kernel32_module + self.free_library_offset
    }

    /// The address of `GetProcAddress` in the target.
    pub fn get_proc_address_fn_ptr(&self) -> (r: usize)
        requires
            self.wf(),
        ensures
            r == self@.get_proc_address(),
    {
        self.kernel32_module + self.get_proc_address_offset
    }
}

} // verus!
