[package]
name = "dll_syringe"
version = "0.1.0"
edition = "2021"
publish = false

[dependencies]
goblin = "*"
iced-x86 = { version = "1", features = ["code_asm"] }
widestring = "*"
winapi = { version = "0.3", features = ["handleapi", "memoryapi", "processthreadsapi", "synchapi", "winbase", "minwinbase", "minwindef", "winnt", "errhandlingapi", "libloaderapi", "psapi", "wow64apiset", "sysinfoapi"] }
