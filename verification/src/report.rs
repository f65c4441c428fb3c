//! The text that is reported: diagnostics for the error stream and the
//! sections that list what was found.

use crate::decimal::{decimal, push_decimal};
use vstd::prelude::*;

verus! {

/// The diagnostic for a process that could not be opened.
pub open spec fn open_failure_message(pid: u32) -> Seq<char> {
    "Failed to open process with PID "@ + decimal(pid as nat)
}

/// The diagnostic for a process whose modules could not be enumerated.
pub open spec fn module_failure_message(pid: u32) -> Seq<char> {
    "Failed to enumerate modules of process with PID "@ + decimal(pid as nat)
}

/// The diagnostic for drivers that could not be enumerated.
pub open spec fn driver_failure_message() -> Seq<char> {
    "Failed to enumerate system drivers."@
}

/// A section: an empty line, the header, then one line for each entry.
pub open spec fn section(header: Seq<char>, entries: Seq<Seq<char>>) -> Seq<Seq<char>> {
    seq![Seq::<char>::empty(), header] + entries
}

/// The lines that list the modules of a process: the libraries, then the
/// executables.
pub open spec fn module_report(
    libraries: Seq<Seq<char>>,
    executables: Seq<Seq<char>>,
) -> Seq<Seq<char>> {
    section("DLL Modules: "@, libraries) + section("EXE Modules :"@, executables)
}

/// The lines that list the drivers.
pub open spec fn driver_report(names: Seq<Seq<char>>) -> Seq<Seq<char>> {
    section("SYS Drivers:"@, names)
}

/// Builds `open_failure_message`.
pub fn render_open_failure(pid: u32) -> (line: String)
    ensures
        line@ == open_failure_message(pid),
{
    let mut line = "Failed to open process with PID ".to_owned();
    push_decimal(&mut line, pid);
    line
}

/// Builds `module_failure_message`.
pub fn render_module_failure(pid: u32) -> (line: String)
    ensures
        line@ == module_failure_message(pid),
{
    let mut line = "Failed to enumerate modules of process with PID ".to_owned();
    push_decimal(&mut line, pid);
    line
}

/// Builds `driver_failure_message`.
pub fn render_driver_failure() -> (line: String)
    ensures
        line@ == driver_failure_message(),
{
    "Failed to enumerate system drivers.".to_owned()
}

/// Appends a section to the lines.
pub fn push_section(lines: &mut Vec<String>, header: &str, entries: &Vec<String>)
    ensures
        final(lines).deep_view() == old(lines).deep_view() + section(header@, entries.deep_view()),
{
    let ghost before = lines.deep_view();
    lines.push(String::new());
    lines.push(header.to_owned());
    proof {
        assert(lines.deep_view() =~= before + seq![Seq::<char>::empty(), header@]);
    }
    let mut i: usize = 0;
    while i < entries.len()
        invariant
            i <= entries.len(),
            lines.deep_view() == before + seq![Seq::<char>::empty(), header@]
                + entries.deep_view().take(i as int),
        decreases entries.len() - i,
    {
        let ghost so_far = lines.deep_view();
        lines.push(entries[i].clone());
        proof {
            assert(lines.deep_view() =~= so_far.push(entries[i as int]@));
            assert(entries.deep_view().take(i + 1) =~= entries.deep_view().take(i as int).push(
                entries[i as int]@,
            ));
        }
        i = i + 1;
    }
    proof {
        assert(entries.deep_view().take(entries.len() as int) =~= entries.deep_view());
    }
}

/// Builds `module_report`.
pub fn render_module_report(libraries: &Vec<String>, executables: &Vec<String>) -> (lines: Vec<
    String,
>)
    ensures
        lines.deep_view() == module_report(libraries.deep_view(), executables.deep_view()),
{
    let mut lines: Vec<String> = Vec::new();
    proof {
        assert(lines.deep_view() =~= Seq::<Seq<char>>::empty());
    }
    push_section(&mut lines, "DLL Modules: ", libraries);
    push_section(&mut lines, "EXE Modules :", executables);
    lines
}

/// Builds `driver_report`.
pub fn render_driver_report(names: &Vec<String>) -> (lines: Vec<String>)
    ensures
        lines.deep_view() == driver_report(names.deep_view()),
{
    let mut lines: Vec<String> = Vec::new();
    proof {
        assert(lines.deep_view() =~= Seq::<Seq<char>>::empty());
    }
    push_section(&mut lines, "SYS Drivers:", names);
    lines
}

} // verus!
