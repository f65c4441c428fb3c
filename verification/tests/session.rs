use modscan::protocol::{Event, Request};
use modscan::session::Session;
use std::collections::HashMap;

const SLOT: usize = std::mem::size_of::<usize>();

fn buffer_of(text: &str) -> Vec<u16> {
    let mut units: Vec<u16> = text.encode_utf16().collect();
    units.resize(512, 0);
    units
}

fn args_of(words: &[&str]) -> Vec<String> {
    words.iter().map(|word| word.to_string()).collect()
}

fn lines_of(words: &[&str]) -> Vec<String> {
    words.iter().map(|word| word.to_string()).collect()
}

/// A system that answers from tables and keeps a record.
struct System {
    processes: HashMap<u32, usize>,
    modules: Option<Vec<(usize, &'static str)>>,
    drivers: Option<Vec<(usize, &'static str)>>,
    open: Vec<usize>,
    released: Vec<usize>,
    asked: Vec<&'static str>,
    output: Vec<String>,
    errors: Vec<String>,
}

impl System {
    fn new() -> Self {
        System {
            processes: HashMap::new(),
            modules: Some(Vec::new()),
            drivers: Some(Vec::new()),
            open: Vec::new(),
            released: Vec::new(),
            asked: Vec::new(),
            output: Vec::new(),
            errors: Vec::new(),
        }
    }

    fn enumerate(table: &Option<Vec<(usize, &'static str)>>, slots: usize) -> Event {
        match table {
            Some(entries) => {
                let mut filled: Vec<usize> = entries.iter().map(|entry| entry.0).collect();
                let bytes = (filled.len() * SLOT) as u32;
                filled.resize(slots, 0);
                Event::Enumerated { ok: true, slots: filled, bytes }
            },
            None => Event::Enumerated { ok: false, slots: vec![0; slots], bytes: 0 },
        }
    }

    fn resolve(table: &Option<Vec<(usize, &'static str)>>, handle: usize) -> Event {
        let entries = table.as_ref().unwrap();
        match entries.iter().find(|entry| entry.0 == handle) {
            Some((_, path)) if !path.is_empty() => Event::Resolved {
                len: path.encode_utf16().count() as u32,
                units: buffer_of(path),
            },
            _ => Event::Resolved { len: 0, units: vec![0; 512] },
        }
    }

    fn run(&mut self, args: &[&str]) -> i32 {
        let mut session = Session::start(&args_of(args));
        for _ in 0..10_000 {
            let event = match session.request() {
                Request::OpenProcess { pid, access } => {
                    assert_eq!(access, 0x0410);
                    self.asked.push("open");
                    let process = self.processes.get(&pid).copied().unwrap_or(0);
                    if process != 0 {
                        self.open.push(process);
                    }
                    Event::Opened { process }
                },
                Request::EnumerateModules { process, slots } => {
                    assert!(self.open.contains(&process));
                    self.asked.push("modules");
                    Self::enumerate(&self.modules, slots)
                },
                Request::ResolveModule { process, module, units } => {
                    assert!(self.open.contains(&process));
                    assert_eq!(units, 512);
                    self.asked.push("module");
                    Self::resolve(&self.modules, module)
                },
                Request::CloseProcess { process } => {
                    let at = self.open.iter().position(|held| *held == process).unwrap();
                    self.open.remove(at);
                    self.released.push(process);
                    self.asked.push("close");
                    Event::Done
                },
                Request::EnumerateDrivers { slots } => {
                    self.asked.push("drivers");
                    Self::enumerate(&self.drivers, slots)
                },
                Request::ResolveDriver { driver, units } => {
                    assert_eq!(units, 512);
                    self.asked.push("driver");
                    Self::resolve(&self.drivers, driver)
                },
                Request::Print { lines } => {
                    self.output.extend(lines);
                    Event::Done
                },
                Request::Complain { line } => {
                    self.errors.push(line);
                    Event::Done
                },
                Request::Exit { code } => return code,
            };
            session = session.answer(event);
        }
        panic!("the run does not end");
    }
}

#[test]
fn argument_that_is_no_number_ends_the_run() {
    let mut system = System::new();
    assert_eq!(system.run(&["modscan", "abc"]), 1);
    assert_eq!(system.errors, lines_of(&["Invalid PID provided."]));
    assert!(system.output.is_empty());
    assert!(system.asked.is_empty());
}

#[test]
fn missing_argument_ends_the_run() {
    let mut system = System::new();
    assert_eq!(system.run(&["modscan"]), 1);
    assert_eq!(system.errors, lines_of(&["Please provide a process ID (PID) as an argument."]));
    assert!(system.output.is_empty());
    assert!(system.asked.is_empty());
}

#[test]
fn refused_session_repeats_its_requests() {
    let session = Session::start(&args_of(&["modscan", "12x"]));
    let complaint = Request::Complain { line: "Invalid PID provided.".to_string() };
    assert_eq!(session.request(), complaint);
    let session = session.answer(Event::Opened { process: 7 });
    assert_eq!(session.request(), complaint);
    let session = session.answer(Event::Done);
    assert_eq!(session.request(), Request::Exit { code: 1 });
    let session = session.answer(Event::Done);
    assert_eq!(session.request(), Request::Exit { code: 1 });
}

#[test]
fn process_that_cannot_be_opened_still_lists_the_drivers() {
    for pid in ["0", "99999"] {
        let mut system = System::new();
        system.drivers = Some(vec![(0x1000, "\\SystemRoot\\system32\\ntoskrnl.exe")]);
        assert_eq!(system.run(&["modscan", pid]), 0);
        assert_eq!(system.errors, vec![format!("Failed to open process with PID {}", pid)]);
        assert_eq!(
            system.output,
            lines_of(&["", "SYS Drivers:", "\\SystemRoot\\system32\\ntoskrnl.exe"])
        );
        assert_eq!(system.asked, vec!["open", "drivers", "driver"]);
        assert!(system.released.is_empty());
    }
}

#[test]
fn whole_run_lists_modules_then_drivers() {
    let mut system = System::new();
    system.processes.insert(4321, 0x1f4);
    system.modules = Some(vec![
        (0x400000, "C:\\Tools\\tool.exe"),
        (0x7ff0_0000, "C:\\Windows\\System32\\ntdll.dll"),
        (0x7ff1_0000, ""),
        (0x7ff2_0000, "C:\\Windows\\System32\\sortdefault.nls"),
        (0x7ff3_0000, "C:\\Windows\\System32\\kernel32.dll"),
    ]);
    system.drivers = Some(vec![
        (0xfffff800_0000_0000usize, "\\SystemRoot\\system32\\ntoskrnl.exe"),
        (0xfffff800_1000_0000usize, "\\SystemRoot\\System32\\drivers\\ntfs.sys"),
        (0xfffff800_2000_0000usize, "\\SystemRoot\\System32\\drivers\\raw"),
    ]);
    assert_eq!(system.run(&["modscan", "4321"]), 0);
    assert!(system.errors.is_empty());
    assert_eq!(
        system.output,
        lines_of(&[
            "",
            "DLL Modules: ",
            "C:\\Windows\\System32\\ntdll.dll",
            "C:\\Windows\\System32\\kernel32.dll",
            "",
            "EXE Modules :",
            "C:\\Tools\\tool.exe",
            "",
            "SYS Drivers:",
            "\\SystemRoot\\system32\\ntoskrnl.exe",
            "\\SystemRoot\\System32\\drivers\\ntfs.sys",
            "\\SystemRoot\\System32\\drivers\\raw",
        ])
    );
    assert_eq!(
        system.asked,
        vec![
            "open", "modules", "module", "module", "module", "module", "module", "close",
            "drivers", "driver", "driver", "driver",
        ]
    );
    assert_eq!(system.released, vec![0x1f4]);
    assert!(system.open.is_empty());
}

#[test]
fn process_without_matching_modules_prints_both_headers() {
    let mut system = System::new();
    system.processes.insert(8, 0x30);
    system.modules = Some(vec![(0x10, "C:\\a\\data.bin"), (0x20, "C:\\a\\noextension")]);
    system.drivers = None;
    assert_eq!(system.run(&["modscan", "8"]), 0);
    assert_eq!(system.output, lines_of(&["", "DLL Modules: ", "", "EXE Modules :"]));
    assert_eq!(system.errors, lines_of(&["Failed to enumerate system drivers."]));
    assert_eq!(system.released, vec![0x30]);
}

#[test]
fn failed_enumerations_end_with_exit_code_zero() {
    let mut system = System::new();
    system.processes.insert(8, 0x30);
    system.modules = None;
    system.drivers = None;
    assert_eq!(system.run(&["modscan", "8"]), 0);
    assert!(system.output.is_empty());
    assert_eq!(
        system.errors,
        lines_of(&[
            "Failed to enumerate modules of process with PID 8",
            "Failed to enumerate system drivers.",
        ])
    );
    assert_eq!(system.asked, vec!["open", "modules", "close", "drivers"]);
    assert_eq!(system.released, vec![0x30]);
    assert!(system.open.is_empty());
}

#[test]
fn finished_session_keeps_asking_to_leave() {
    let mut system = System::new();
    system.processes.insert(8, 0x30);
    let mut session = Session::start(&args_of(&["modscan", "8"]));
    let mut steps = 0;
    loop {
        let event = match session.request() {
            Request::OpenProcess { .. } => Event::Opened { process: 0x30 },
            Request::EnumerateModules { slots, .. } | Request::EnumerateDrivers { slots } => {
                Event::Enumerated { ok: true, slots: vec![0; slots], bytes: 0 }
            },
            Request::Exit { code } => {
                assert_eq!(code, 0);
                break;
            },
            _ => Event::Done,
        };
        session = session.answer(event);
        steps += 1;
    }
    assert_eq!(steps, 6);
    let session = session.answer(Event::Done).answer(Event::Opened { process: 1 });
    assert_eq!(session.request(), Request::Exit { code: 0 });
}
