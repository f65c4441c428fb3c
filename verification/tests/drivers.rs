use modscan::drivers::{reported_len, DriverLister, DriverPhase};
use modscan::protocol::{Event, Request};

const SLOT: usize = std::mem::size_of::<usize>();

fn buffer_of(text: &str) -> Vec<u16> {
    let mut units: Vec<u16> = text.encode_utf16().collect();
    units.resize(512, 0);
    units
}

fn resolved(text: &str) -> Event {
    Event::Resolved { len: text.encode_utf16().count() as u32, units: buffer_of(text) }
}

fn slots_of(filled: &[usize]) -> Vec<usize> {
    let mut slots = filled.to_vec();
    slots.resize(1024, 0);
    slots
}

fn enumerated(filled: &[usize], count: usize) -> Event {
    Event::Enumerated { ok: true, slots: slots_of(filled), bytes: (count * SLOT) as u32 }
}

fn lines_of(words: &[&str]) -> Vec<String> {
    words.iter().map(|word| word.to_string()).collect()
}

#[test]
fn driver_lister_starts_with_the_enumeration() {
    let lister = DriverLister::start();
    assert_eq!(lister.phase(), DriverPhase::Enumerating);
    assert!(!lister.is_finished());
    assert!(lister.names().is_empty());
    assert_eq!(lister.request(), Some(Request::EnumerateDrivers { slots: 1024 }));
}

#[test]
fn drivers_are_listed_whatever_their_extension() {
    let mut lister = DriverLister::start().answer(enumerated(&[0x1000, 0x2000, 0x3000, 0x4000], 4));
    let paths = [
        "\\SystemRoot\\system32\\ntoskrnl.exe",
        "\\SystemRoot\\system32\\hal.dll",
        "\\SystemRoot\\System32\\drivers\\ntfs.sys",
        "\\SystemRoot\\System32\\drivers\\noextension",
    ];
    for (index, path) in paths.iter().enumerate() {
        assert_eq!(
            lister.request(),
            Some(Request::ResolveDriver { driver: 0x1000 * (index + 1), units: 512 })
        );
        lister = lister.answer(resolved(path));
    }
    assert_eq!(lister.names(), &lines_of(&paths));
    let mut expected = lines_of(&["", "SYS Drivers:"]);
    expected.extend(lines_of(&paths));
    assert_eq!(lister.request(), Some(Request::Print { lines: expected }));
    lister = lister.answer(Event::Done);
    assert!(lister.is_finished());
    assert_eq!(lister.phase(), DriverPhase::Finished);
    assert_eq!(lister.request(), None);
}

#[test]
fn only_the_slots_reported_are_read() {
    let mut lister = DriverLister::start().answer(enumerated(&[0x10, 0x20, 0x30, 0x40], 2));
    assert_eq!(lister.request(), Some(Request::ResolveDriver { driver: 0x10, units: 512 }));
    lister = lister.answer(resolved("one.sys"));
    assert_eq!(lister.request(), Some(Request::ResolveDriver { driver: 0x20, units: 512 }));
    lister = lister.answer(resolved("two.sys"));
    assert_eq!(
        lister.request(),
        Some(Request::Print { lines: lines_of(&["", "SYS Drivers:", "one.sys", "two.sys"]) })
    );
}

#[test]
fn bytes_that_fill_no_whole_slot_count_for_nothing() {
    let event = Event::Enumerated {
        ok: true,
        slots: slots_of(&[0x10, 0x20, 0x30]),
        bytes: (2 * SLOT + SLOT - 1) as u32,
    };
    let mut lister = DriverLister::start().answer(event);
    lister = lister.answer(resolved("one.sys"));
    lister = lister.answer(resolved("two.sys"));
    assert_eq!(
        lister.request(),
        Some(Request::Print { lines: lines_of(&["", "SYS Drivers:", "one.sys", "two.sys"]) })
    );
}

#[test]
fn null_slots_are_skipped() {
    let mut lister = DriverLister::start().answer(enumerated(&[0, 0x20, 0, 0, 0x50, 0], 6));
    assert_eq!(lister.request(), Some(Request::ResolveDriver { driver: 0x20, units: 512 }));
    lister = lister.answer(resolved("a.sys"));
    assert_eq!(lister.request(), Some(Request::ResolveDriver { driver: 0x50, units: 512 }));
    lister = lister.answer(resolved("b.sys"));
    assert_eq!(
        lister.request(),
        Some(Request::Print { lines: lines_of(&["", "SYS Drivers:", "a.sys", "b.sys"]) })
    );
}

#[test]
fn no_driver_leaves_the_header() {
    let lister = DriverLister::start().answer(enumerated(&[], 0));
    assert_eq!(lister.phase(), DriverPhase::Listing);
    assert_eq!(lister.request(), Some(Request::Print { lines: lines_of(&["", "SYS Drivers:"]) }));
    assert!(lister.answer(Event::Done).is_finished());
}

#[test]
fn driver_that_does_not_resolve_is_skipped() {
    let mut lister = DriverLister::start().answer(enumerated(&[0x10, 0x20, 0x30], 3));
    lister = lister.answer(resolved("first.sys"));
    lister = lister.answer(Event::Resolved { len: 0, units: buffer_of("stale.sys") });
    lister = lister.answer(resolved("third.sys"));
    assert_eq!(lister.names(), &lines_of(&["first.sys", "third.sys"]));
}

#[test]
fn driver_path_is_cut_at_the_null_not_at_the_length() {
    let mut lister = DriverLister::start().answer(enumerated(&[0x10, 0x20], 2));
    lister = lister.answer(Event::Resolved { len: 3, units: buffer_of("longer.sys") });
    lister = lister.answer(Event::Resolved { len: 9, units: vec![0u16; 512] });
    assert_eq!(lister.names(), &lines_of(&["longer.sys", ""]));
}

#[test]
fn failed_driver_enumeration_is_reported() {
    let event = Event::Enumerated { ok: false, slots: slots_of(&[0x10, 0x20]), bytes: 64 };
    let lister = DriverLister::start().answer(event);
    assert_eq!(lister.phase(), DriverPhase::Failed);
    assert_eq!(
        lister.request(),
        Some(Request::Complain { line: "Failed to enumerate system drivers.".to_string() })
    );
    let lister = lister.answer(Event::Done);
    assert!(lister.is_finished());
    assert!(lister.names().is_empty());
    assert_eq!(lister.request(), None);
}

#[test]
fn more_bytes_than_slots_read_every_slot() {
    let event = Event::Enumerated { ok: true, slots: vec![0x10, 0x20, 0x30], bytes: u32::MAX };
    let mut lister = DriverLister::start().answer(event);
    for name in ["a", "b", "c"] {
        assert!(matches!(lister.request(), Some(Request::ResolveDriver { .. })));
        lister = lister.answer(resolved(name));
    }
    assert_eq!(
        lister.request(),
        Some(Request::Print { lines: lines_of(&["", "SYS Drivers:", "a", "b", "c"]) })
    );
}

#[test]
fn reported_len_divides_by_the_slot_size() {
    assert_eq!(reported_len(0, 1024), 0);
    assert_eq!(reported_len((SLOT - 1) as u32, 1024), 0);
    assert_eq!(reported_len(SLOT as u32, 1024), 1);
    assert_eq!(reported_len((200 * SLOT) as u32, 1024), 200);
    assert_eq!(reported_len((1024 * SLOT) as u32, 1024), 1024);
    assert_eq!(reported_len((1025 * SLOT) as u32, 1024), 1024);
    assert_eq!(reported_len((5 * SLOT) as u32, 3), 3);
    assert_eq!(reported_len((5 * SLOT) as u32, 0), 0);
}

#[test]
fn driver_lister_ignores_events_that_answer_nothing() {
    let lister = DriverLister::start();
    let lister = lister.answer(Event::Done);
    let lister = lister.answer(resolved("x.sys"));
    let lister = lister.answer(Event::Opened { process: 4 });
    assert_eq!(lister.phase(), DriverPhase::Enumerating);
    assert_eq!(lister.request(), Some(Request::EnumerateDrivers { slots: 1024 }));

    let lister = lister.answer(enumerated(&[0x10], 1));
    let lister = lister.answer(Event::Done);
    let lister = lister.answer(enumerated(&[0x70, 0x80], 2));
    assert_eq!(lister.request(), Some(Request::ResolveDriver { driver: 0x10, units: 512 }));

    let lister = lister.answer(resolved("x.sys"));
    let lister = lister.answer(resolved("y.sys"));
    assert_eq!(lister.names(), &lines_of(&["x.sys"]));

    let lister = lister.answer(Event::Done);
    assert!(lister.is_finished());
    let lister = lister.answer(Event::Done).answer(enumerated(&[0x10], 1)).answer(resolved("z"));
    assert!(lister.is_finished());
    assert_eq!(lister.names(), &lines_of(&["x.sys"]));
}
