[package]
name = "lisadbg"
version = "0.1.0"
edition = "2021"
publish = false

[dependencies]
winapi = { version = "0.3", features = ["winnt", "debugapi", "handleapi", "processthreadsapi", "winbase", "memoryapi", "minwinbase", "dbghelp", "libloaderapi", "fileapi", "minwindef", "ntdef", "basetsd"] }
structopt = "0.3"
once_cell = "1"
libloading = "0.8"
iced-x86 = "1"
gimli = "0.31"
ntapi = "0.4"
keystone-engine = "0.1"
num = "0.4"
regex = "1"
anyhow = "1"
