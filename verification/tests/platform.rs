use plex_pg_core::backtrace::{
    base_name_of, can_be_cut, find_lib_for_addr, frame_line, read_address, read_mapping,
    read_memory_map, shown_frames, shown_func, split_words, Shown, Walk,
};
use plex_pg_core::runtime::{
    env_truthy, init_delay, is_served_process, page_start, process_name, uuid_parser_address,
    Signal, SignalAction, Signals,
};
use plex_pg_core::text::{chars_of, string_of};

#[test]
fn settings_mean_yes_by_their_first_letter() {
    for yes in ["1", "y", "Yes", "true", "T"] {
        assert!(env_truthy(Some(yes.as_bytes())), "{yes}");
    }
    for no in ["", "0", "no", "on", " 1"] {
        assert!(!env_truthy(Some(no.as_bytes())), "{no}");
    }
    assert!(!env_truthy(None));
}

#[test]
fn processes_are_told_by_name() {
    assert_eq!(process_name(b"/usr/lib/Plex Media Server\0-x\0"), b"Plex Media Server");
    assert_eq!(process_name(b"sh"), b"sh");
    assert!(is_served_process(b"/usr/lib/plexmediaserver/Plex Media Server\0"));
    assert!(is_served_process(b"Plex Media Scanner\0--scan\0"));
    assert!(!is_served_process(b"/bin/sh\0"));
    assert!(!is_served_process(b"Plex Media Server\xff\0"));
    // The last slash counts, also one in an argument.
    assert!(!is_served_process(b"/usr/lib/Plex Media Server\0/tmp/x\0"));
}

#[test]
fn signals_are_ignored_logged_or_handed_on() {
    let mut s = Signals::new();
    assert_eq!(s.sigaction(false, true, Signal::Child, true, true), SignalAction::Refuse);
    assert_eq!(
        s.sigaction(true, true, Signal::Child, true, true),
        SignalAction::Ignore { tell_old: true }
    );
    assert_eq!(s.sigaction(true, true, Signal::Child, false, true), SignalAction::HandOn);
    assert_eq!(
        s.sigaction(true, true, Signal::Fault, true, false),
        SignalAction::Log { tell_old: false }
    );
    assert_eq!(s.sigaction(true, false, Signal::Fault, true, false), SignalAction::HandOn);
    assert_eq!(s.sigaction(true, true, Signal::Other, true, false), SignalAction::HandOn);
    s.configure(true, true, false);
    assert!(s.force_ignore_sigchld && s.intercept);
    s.configure(true, false, true);
    assert!(!s.force_ignore_sigchld && !s.intercept);
    let mut t = Signals::new();
    t.disable_postfork_signal_overrides_fast();
    assert_eq!(t.sigaction(true, true, Signal::Child, true, true), SignalAction::HandOn);
}

#[test]
fn the_start_is_delayed() {
    assert_eq!(init_delay(false, None), Some(200));
    assert_eq!(init_delay(false, Some(50)), Some(50));
    assert_eq!(init_delay(false, Some(0)), None);
    assert_eq!(init_delay(false, Some(-4)), None);
    assert_eq!(init_delay(true, Some(50)), None);
}

#[test]
fn addresses_are_in_their_pages() {
    assert_eq!(uuid_parser_address(0), None);
    assert_eq!(uuid_parser_address(0x1000_0000), Some(0x1104_a6cc));
    assert_eq!(page_start(0x1104_a6cc, 4096), Some(0x1104_a000));
    assert_eq!(page_start(0x1104_a6cc, 65536), Some(0x1104_0000));
    assert_eq!(page_start(0x1104_a6cc, 0), None);
}

#[test]
fn stacks_are_walked_upward() {
    let mut w = Walk::start(0x7000);
    assert!(w.may_read());
    w.read(0x40_0000, 0x7100);
    assert!(w.may_read());
    w.read(0x40_1000, 0x7100);
    assert!(!w.may_read());
    assert_eq!(w.frames, [0x40_0000, 0x40_1000]);
    assert!(!Walk::start(0).may_read());
    assert!(!Walk::start(0xfff).may_read());
    assert!(!Walk::start(0x1_0000_0000_0000).may_read());
    let mut low = Walk::start(0x7000);
    low.read(0x10, 0x8000);
    assert!(low.frames.is_empty() && !low.may_read());
    let mut far = Walk::start(0x7000);
    far.read(0x40_0000, 0x7000 + 0x10_0001);
    assert_eq!(far.frames.len(), 1);
    assert!(!far.may_read());
    let mut long = Walk::start(0x1000);
    let mut n = 0;
    while long.may_read() {
        let next = long.fp + 16;
        long.read(0x40_0000, next);
        n += 1;
    }
    assert_eq!(n, 64);
}

#[test]
fn lines_are_split_into_words() {
    let line = "  a\tbc \u{3000}d ";
    let words: Vec<String> = split_words(&chars_of(line)).iter().map(|w| string_of(w)).collect();
    let expected: Vec<&str> = line.split_whitespace().collect();
    assert_eq!(words, expected);
    assert!(split_words(&chars_of(" \t")).is_empty());
}

#[test]
fn addresses_are_read_as_the_standard_library_does() {
    for s in
        ["0", "7f", "+1F", "ffffffffffffffff", "00000000000000000001", "10000000000000000", "", "+", "-1", "g", "1 "]
    {
        assert_eq!(read_address(&chars_of(s)), u64::from_str_radix(s, 16).ok(), "{s}");
    }
}

#[test]
fn mappings_are_read_line_by_line() {
    let maps = "00400000-00452000 r-xp 00000000 08:02 173521 /usr/bin/dbus-daemon\n\
                7f00-8f00 rw-p\n\nnonsense\n7ffe-7fff rw-p 0 0:0 0 [stack]\n";
    let entries = read_memory_map(maps);
    assert_eq!(entries.len(), 3);
    assert_eq!((entries[0].start, entries[0].end), (0x400000, 0x452000));
    assert_eq!(entries[0].path, b"/usr/bin/dbus-daemon");
    assert_eq!(entries[1].path, b"rw-p");
    assert_eq!(entries[2].path, b"[stack]");
    assert_eq!(find_lib_for_addr(&entries, 0x400000), b"dbus-daemon");
    assert_eq!(find_lib_for_addr(&entries, 0x452000), b"[unknown]");
    assert_eq!(find_lib_for_addr(&entries, 0x7ffe), b"rw-p");
    assert!(read_mapping(&chars_of("a-b-c x")).is_none());
    assert_eq!(read_mapping(&chars_of("a-b")).unwrap().path, b"[anonymous]");
    let long = format!("1-2 /{}", "x".repeat(400));
    assert_eq!(read_mapping(&chars_of(&long)).unwrap().path.len(), 255);
    let many = "1-2 x\n".repeat(300);
    assert_eq!(read_memory_map(&many).len(), 256);
}

#[test]
fn names_are_shown_up_to_70_bytes() {
    assert_eq!(base_name_of(b"/a/b/c.so"), b"c.so");
    assert_eq!(base_name_of(b"c.so"), b"c.so");
    assert_eq!(shown_func(&"f".repeat(70)), "f".repeat(70));
    assert_eq!(shown_func(&"f".repeat(71)), format!("{}...", "f".repeat(67)));
    assert!(!can_be_cut(&"\u{e9}".repeat(36)));
    assert_eq!(frame_line(3, "main"), "[ 3] main");
    assert_eq!(frame_line(12, "main"), "[12] main");
}

#[test]
fn up_to_25_frames_are_shown() {
    assert_eq!(shown_frames(10, 2), Shown { start: 2, end: 10, more: 0 });
    assert_eq!(shown_frames(64, 2), Shown { start: 2, end: 27, more: 37 });
    assert_eq!(shown_frames(64, -5), Shown { start: 0, end: 25, more: 39 });
    assert_eq!(shown_frames(3, 9), Shown { start: 9, end: 9, more: 0 });
}
