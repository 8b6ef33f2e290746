//! What is decided when the library is loaded into a process.

use crate::backtrace;
use crate::prepare_text;
use crate::search;
use crate::text;
use vstd::prelude::*;

verus! {

/// How long the start is delayed where nothing else is set, in milliseconds.
pub const INIT_DELAY_MS: i32 = 200;

/// Where the server's reader of identifiers begins, from the start of its program on.
pub const UUID_PARSER_OFFSET: u64 = 0x104a6cc;

/// Does a setting's value mean yes? It does if it begins with a one, a Y or a T.
pub open spec fn truthy(val: Option<Seq<u8>>) -> bool {
    match val {
        Some(v) => v.len() > 0 && (v[0] == 0x31 || v[0] == 0x79 || v[0] == 0x59 || v[0] == 0x74
            || v[0] == 0x54),
        None => false,
    }
}

/// Does a setting's value mean yes?
pub fn env_truthy(val: Option<&[u8]>) -> (r: bool)
    ensures
        r == truthy(match val {
            Some(v) => Some(v@),
            None => None,
        }),
{
    match val {
        Some(v) => v.len() > 0 && (v[0] == 0x31 || v[0] == 0x79 || v[0] == 0x59 || v[0] == 0x74
            || v[0] == 0x54),
        None => false,
    }
}

/// What stands before the first zero.
pub open spec fn before_zero(s: Seq<u8>) -> Seq<u8> {
    match search::first_index(|i: int| s[i] == 0, 0, s.len() as int) {
        Some(i) => s.take(i),
        None => s,
    }
}

/// The name of a process: what stands behind the last slash of its command line, up to the zero
/// behind it.
pub fn process_name(cmdline: &[u8]) -> (r: Vec<u8>)
    ensures
        r@ == before_zero(backtrace::base_name(cmdline@)),
{
    let base = backtrace::base_name_of(cmdline);
    let ghost v = base@;
    let ghost p = |i: int| v[i] == 0;
    let n: usize = base.len();
    let mut i: usize = 0;
    while i < n
        invariant
            i <= n == base@.len(),
            v == base@,
            p == (|i: int| v[i] == 0),
            search::first_index(p, 0, n as int) == search::first_index(p, i as int, n as int),
            v == backtrace::base_name(cmdline@),
        decreases n - i,
    {
        if base[i] == 0 {
            assert(p(i as int));
            let r = prepare_text::copy_range(&base, 0, i);
            assert(r@ == v.take(i as int));
            return r;
        }
        assert(!p(i as int));
        i += 1;
    }
    base
}

/// Is this the name of one of the two programs that the library serves?
pub open spec fn served(name: Seq<char>) -> bool {
    text::occurs(name, "Plex Media Server"@) || text::occurs(name, "Plex Media Scanner"@)
}

/// Is a process one that the library serves? A name that is not text is not.
pub fn is_served_process(cmdline: &[u8]) -> (r: bool)
    ensures
        r == ({
            let name = before_zero(backtrace::base_name(cmdline@));
            vstd::utf8::valid_utf8(name) && served(vstd::utf8::decode_utf8(name))
        }),
{
    let name = process_name(cmdline);
    match std::str::from_utf8(&name) {
        Ok(s) => {
            proof {
                vstd::utf8::encode_utf8_decode_utf8(s@);
            }
            text::contains(s, "Plex Media Server") || text::contains(s, "Plex Media Scanner")
        },
        Err(_) => false,
    }
}

/// How signals are dealt with.
#[derive(PartialEq, Eq, Structural, Clone, Copy, Debug)]
pub struct Signals {
    /// Whatever a program asks for, the end of its children is ignored.
    pub force_ignore_sigchld: bool,
    /// What programs ask for is looked at.
    pub intercept: bool,
}

/// The kinds of signals that are told apart.
#[derive(PartialEq, Eq, Structural, Clone, Copy, Debug)]
pub enum Signal {
    /// A child has ended.
    Child,
    /// The program is at fault.
    Fault,
    Other,
}

/// What becomes of a program's wish for a signal.
#[derive(PartialEq, Eq, Structural, Clone, Copy, Debug)]
pub enum SignalAction {
    /// It is refused: there is no one to hand it on to.
    Refuse,
    /// It is handed on.
    HandOn,
    /// The signal is ignored instead, and the program told what held before, if it asks.
    Ignore { tell_old: bool },
    /// The signal is logged instead, and the program told what held before, if it asks.
    Log { tell_old: bool },
}

impl Signals {
    /// At first both are on.
    pub fn new() -> (r: Self)
        ensures
            r == (Signals { force_ignore_sigchld: true, intercept: true }),
    {
        Signals { force_ignore_sigchld: true, intercept: true }
    }

    /// Leaves signals alone: in a process that the library does not serve, and after a fork.
    pub fn disable_postfork_signal_overrides_fast(&mut self)
        ensures
            *final(self) == (Signals { force_ignore_sigchld: false, intercept: false }),
    {
        self.force_ignore_sigchld = false;
        self.intercept = false;
    }

    /// Takes the settings. Where one turns the ignoring off and another one on, it is on.
    pub fn configure(&mut self, disable_ignore: bool, force_ignore: bool, disable_intercept: bool)
        ensures
            final(self).force_ignore_sigchld == (force_ignore || (old(self).force_ignore_sigchld
                && !disable_ignore)),
            final(self).intercept == (old(self).intercept && !disable_intercept),
    {
        if disable_ignore {
            self.force_ignore_sigchld = false;
        }
        if force_ignore {
            self.force_ignore_sigchld = true;
        }
        if disable_intercept {
            self.intercept = false;
        }
    }

    /// What becomes of a program's wish for a signal. `sets` says whether it sets something, and
    /// `asks_old` whether it asks what held before.
    pub fn sigaction(
        &self,
        has_original: bool,
        log_enabled: bool,
        signal: Signal,
        sets: bool,
        asks_old: bool,
    ) -> (r: SignalAction)
        ensures
            r == (if !has_original {
                SignalAction::Refuse
            } else if !self.intercept || !sets {
                SignalAction::HandOn
            } else if self.force_ignore_sigchld && signal == Signal::Child {
                SignalAction::Ignore { tell_old: asks_old }
            } else if log_enabled && signal == Signal::Fault {
                SignalAction::Log { tell_old: asks_old }
            } else {
                SignalAction::HandOn
            }),
    {
        if !has_original {
            return SignalAction::Refuse;
        }
        if !self.intercept {
            return SignalAction::HandOn;
        }
        if self.force_ignore_sigchld && matches!(signal, Signal::Child) && sets {
            return SignalAction::Ignore { tell_old: asks_old };
        }
        if log_enabled && sets && matches!(signal, Signal::Fault) {
            return SignalAction::Log { tell_old: asks_old };
        }
        SignalAction::HandOn
    }
}

/// How long the start is delayed, in milliseconds, if it is. `configured` is the number that is set.
pub fn init_delay(no_delay: bool, configured: Option<i32>) -> (r: Option<i32>)
    ensures
        r == ({
            let ms = match configured {
                Some(n) => n,
                None => INIT_DELAY_MS,
            };
            if !no_delay && ms > 0 {
                Some(ms)
            } else {
                None
            }
        }),
{
    if no_delay {
        return None;
    }
    let ms: i32 = match configured {
        Some(n) => n,
        None => INIT_DELAY_MS,
    };
    if ms > 0 {
        Some(ms)
    } else {
        None
    }
}

/// Where the server's reader of identifiers is in memory, given where its program begins; nowhere if
/// that is not known.
pub fn uuid_parser_address(base: u64) -> (r: Option<u64>)
    requires
        base + UUID_PARSER_OFFSET <= u64::MAX,
    ensures
        r == (if base == 0 {
            None
        } else {
            Some((base + UUID_PARSER_OFFSET) as u64)
        }),
{
    if base == 0 {
        None
    } else {
        Some(base + UUID_PARSER_OFFSET)
    }
}

/// Where the page of an address begins; nowhere if pages have no size.
pub fn page_start(address: u64, page_size: u64) -> (r: Option<u64>)
    ensures
        r == (if page_size == 0 {
            None
        } else {
            Some(address & !((page_size - 1) as u64))
        }),
{
    if page_size == 0 {
        None
    } else {
        Some(address & !(page_size - 1))
    }
}

/// On pages of the common sizes, an address is in the page that is said to hold it, and the page
/// begins at a multiple of its size.
pub proof fn law_page_holds_address(address: u64, page_size: u64)
    requires
        page_size == 4096 || page_size == 16384 || page_size == 65536,
    ensures
        address & !((page_size - 1) as u64) <= address,
        address - (address & !((page_size - 1) as u64)) < page_size,
        (address & !((page_size - 1) as u64)) % page_size == 0,
{
    assert(address & !4095u64 == address - address % 4096) by (bit_vector);
    assert(address & !16383u64 == address - address % 16384) by (bit_vector);
    assert(address & !65535u64 == address - address % 65536) by (bit_vector);
    let start = (address & !((page_size - 1) as u64)) as int;
    assert(start == address - address % page_size);
    vstd::arithmetic::div_mod::lemma_fundamental_div_mod(address as int, page_size as int);
    assert(start == page_size * (address as int / page_size as int));
    vstd::arithmetic::div_mod::lemma_mod_multiples_basic(
        address as int / page_size as int,
        page_size as int,
    );
    assert(start == (address as int / page_size as int) * page_size) by (nonlinear_arith)
        requires
            start == page_size * (address as int / page_size as int),
    ;
}

/// The instructions that take the place of the first ones of the server's reader of identifiers: both
/// halves of the identifier are zero, and the reader returns.
pub open spec fn nil_reader() -> Seq<u8> {
    seq![
        0x00u8,
        0x00u8,
        0x80u8,
        0xd2u8,
        0x01u8,
        0x00u8,
        0x80u8,
        0xd2u8,
        0xc0u8,
        0x03u8,
        0x5fu8,
        0xd6u8,
    ]
}

/// The instructions of a reader of identifiers that always reads the empty one.
pub fn uuid_patch() -> (r: Vec<u8>)
    ensures
        r@ == nil_reader(),
{
    let v: Vec<u8> = vec![
        0x00u8, 0x00u8, 0x80u8, 0xd2u8, 0x01u8, 0x00u8, 0x80u8, 0xd2u8, 0xc0u8, 0x03u8, 0x5fu8, 0xd6u8,
    ];
    assert(v@ =~= nil_reader());
    v
}

/// What the caller was asked last while the reader is being replaced.
#[derive(Clone, Copy, Debug, PartialEq, Eq, Structural)]
pub enum PatchStage {
    Written,
    PageSize,
    Opened,
    OpenedAll,
    Copied,
    Flushed,
    Over,
}

/// What the caller has to do next.
#[derive(Clone, Copy, Debug, PartialEq, Eq, Structural)]
pub enum PatchAction {
    /// Write the instructions to the address through the file of the process's memory; did it work?
    WriteThroughFile { address: u64 },
    /// How large are pages?
    PageSize,
    /// Make the page writable, and executable if so told; did it work?
    Open { start: u64, size: u64, executable: bool },
    /// Copy the instructions to the address and make the page executable and read-only again.
    CopyAndClose { address: u64, start: u64, size: u64 },
    /// Have the processor read the instructions anew.
    Flush { address: u64 },
    /// Done.
    Stop { replaced: bool },
}

/// The replacement under way.
#[derive(Clone, Copy, Debug, PartialEq, Eq, Structural)]
pub struct Patching {
    pub address: u64,
    pub start: u64,
    pub size: u64,
    pub stage: PatchStage,
}

/// What a step of the replacement does, given the answer to what was asked.
pub open spec fn patch_turn(p: Patching, yes: bool, size: u64) -> (Patching, PatchAction) {
    match p.stage {
        PatchStage::Written => if yes {
            (
                Patching { stage: PatchStage::Flushed, ..p },
                PatchAction::Flush { address: p.address },
            )
        } else {
            (Patching { stage: PatchStage::PageSize, ..p }, PatchAction::PageSize)
        },
        PatchStage::PageSize => if size == 0 {
            (
                Patching { stage: PatchStage::Over, ..p },
                PatchAction::Stop { replaced: false },
            )
        } else {
            let start = p.address & !((size - 1) as u64);
            (
                Patching { start, size, stage: PatchStage::Opened, ..p },
                PatchAction::Open { start, size, executable: false },
            )
        },
        PatchStage::Opened => if yes {
            (
                Patching { stage: PatchStage::Copied, ..p },
                PatchAction::CopyAndClose { address: p.address, start: p.start, size: p.size },
            )
        } else {
            (
                Patching { stage: PatchStage::OpenedAll, ..p },
                PatchAction::Open { start: p.start, size: p.size, executable: true },
            )
        },
        PatchStage::OpenedAll => if yes {
            (
                Patching { stage: PatchStage::Copied, ..p },
                PatchAction::CopyAndClose { address: p.address, start: p.start, size: p.size },
            )
        } else {
            (
                Patching { stage: PatchStage::Over, ..p },
                PatchAction::Stop { replaced: false },
            )
        },
        PatchStage::Copied => (
            Patching { stage: PatchStage::Flushed, ..p },
            PatchAction::Flush { address: p.address },
        ),
        PatchStage::Flushed => (
            Patching { stage: PatchStage::Over, ..p },
            PatchAction::Stop { replaced: true },
        ),
        PatchStage::Over => (p, PatchAction::Stop { replaced: false }),
    }
}

impl Patching {
    /// Begins to replace the reader, given where the program begins. Nothing is done where that is
    /// not known.
    pub fn patch_uuid_parser(base: u64) -> (r: (Self, PatchAction))
        requires
            base + UUID_PARSER_OFFSET <= u64::MAX,
        ensures
            base == 0 ==> r.0.stage == PatchStage::Over && r.1 == (PatchAction::Stop {
                replaced: false,
            }),
            base != 0 ==> r.0.stage == PatchStage::Written && r.0.address == base
                + UUID_PARSER_OFFSET && r.1 == (PatchAction::WriteThroughFile {
                address: r.0.address,
            }),
    {
        match uuid_parser_address(base) {
            Some(address) => (
                Patching { address, start: 0, size: 0, stage: PatchStage::Written },
                PatchAction::WriteThroughFile { address },
            ),
            None => (
                Patching { address: 0, start: 0, size: 0, stage: PatchStage::Over },
                PatchAction::Stop { replaced: false },
            ),
        }
    }

    /// Goes on with the answer to what was asked last.
    pub fn resume(&mut self, yes: bool, size: u64) -> (r: PatchAction)
        ensures
            (*final(self), r) == patch_turn(*old(self), yes, size),
    {
        match self.stage {
            PatchStage::Written => if yes {
                self.stage = PatchStage::Flushed;
                PatchAction::Flush { address: self.address }
            } else {
                self.stage = PatchStage::PageSize;
                PatchAction::PageSize
            },
            PatchStage::PageSize => match page_start(self.address, size) {
                Some(start) => {
                    self.start = start;
                    self.size = size;
                    self.stage = PatchStage::Opened;
                    PatchAction::Open { start, size, executable: false }
                },
                None => {
                    self.stage = PatchStage::Over;
                    PatchAction::Stop { replaced: false }
                },
            },
            PatchStage::Opened => if yes {
                self.stage = PatchStage::Copied;
                PatchAction::CopyAndClose {
                    address: self.address,
                    start: self.start,
                    size: self.size,
                }
            } else {
                self.stage = PatchStage::OpenedAll;
                PatchAction::Open { start: self.start, size: self.size, executable: true }
            },
            PatchStage::OpenedAll => if yes {
                self.stage = PatchStage::Copied;
                PatchAction::CopyAndClose {
                    address: self.address,
                    start: self.start,
                    size: self.size,
                }
            } else {
                self.stage = PatchStage::Over;
                PatchAction::Stop { replaced: false }
            },
            PatchStage::Copied => {
                self.stage = PatchStage::Flushed;
                PatchAction::Flush { address: self.address }
            },
            PatchStage::Flushed => {
                self.stage = PatchStage::Over;
                PatchAction::Stop { replaced: true }
            },
            PatchStage::Over => PatchAction::Stop { replaced: false },
        }
    }
}

/// Memory is copied to only after its page was made writable, and the instructions are said to be
/// replaced only after the processor was told.
pub proof fn law_patch_in_order(p: Patching, yes: bool, size: u64)
    ensures
        patch_turn(p, yes, size).1 is CopyAndClose ==> yes && (p.stage == PatchStage::Opened
            || p.stage == PatchStage::OpenedAll),
        patch_turn(p, yes, size).1 == (PatchAction::Stop { replaced: true }) ==> p.stage
            == PatchStage::Flushed,
        patch_turn(p, yes, size).0.stage == PatchStage::Flushed ==> patch_turn(p, yes, size).1
            is Flush || p.stage == PatchStage::Flushed,
{
}

/// A setting means yes by its first letter: `1`, `y` or `t`, in either case, whatever follows.
/// Anything else means no, and so does a setting that is empty or missing.
pub proof fn law_settings_that_mean_yes(first: u8, rest: Seq<u8>)
    ensures
        truthy(Some(seq![first] + rest)) <==> first == '1' as u8 || first == 'y' as u8 || first
            == 'Y' as u8 || first == 't' as u8 || first == 'T' as u8,
        !truthy(Some(Seq::<u8>::empty())),
        !truthy(None),
{
    assert((seq![first] + rest)[0] == first);
}

/// A process is called by its program's file, without its directory and without what is handed to
/// it, as long as no slash is in that.
pub proof fn law_processes_are_called_by_their_files(
    directory: Seq<u8>,
    name: Seq<u8>,
    handed: Seq<u8>,
)
    requires
        !name.contains(0) && !name.contains('/' as u8),
        !handed.contains('/' as u8),
    ensures
        before_zero(
            backtrace::base_name(directory + seq!['/' as u8] + (name + seq![0u8] + handed)),
        ) == name,
        before_zero(backtrace::base_name(name)) == name,
{
    let tail = name + seq![0u8] + handed;
    let n = name.len() as int;
    assert(!tail.contains('/' as u8)) by {
        if tail.contains('/' as u8) {
            let k = choose|k: int| 0 <= k < tail.len() && tail[k] == '/' as u8;
            if k < n {
                assert(name.contains(name[k]));
            } else if k > n {
                assert(handed.contains(handed[k - n - 1]));
            } else {
                assert(tail[n] == 0);
            }
        }
    }
    backtrace::law_files_are_called_by_their_names(directory, tail);
    backtrace::law_files_are_called_by_their_names(directory, name);
    let p = |i: int| tail[i] == 0;
    search::lemma_first_index(p, 0, tail.len() as int);
    assert forall|j: int| 0 <= j < n implies !#[trigger] p(j) by {
        assert(tail[j] == name[j]);
        assert(name.contains(name[j]));
    }
    assert(p(n));
    assert(tail.take(n) =~= name);
    let q = |i: int| name[i] == 0;
    search::lemma_first_index(q, 0, n);
    assert forall|j: int| 0 <= j < n implies !#[trigger] q(j) by {
        assert(name.contains(name[j]));
    }
}

/// The server and the scanner are served, whatever stands around their names.
pub proof fn law_server_and_scanner_are_served(before: Seq<char>, behind: Seq<char>)
    ensures
        served(before + "Plex Media Server"@ + behind),
        served(before + "Plex Media Scanner"@ + behind),
{
    let n = before.len() as int;
    let a = before + "Plex Media Server"@ + behind;
    assert(a.subrange(n, n + "Plex Media Server"@.len()) =~= "Plex Media Server"@);
    assert(text::occurs_at(a, n, "Plex Media Server"@));
    let b = before + "Plex Media Scanner"@ + behind;
    assert(b.subrange(n, n + "Plex Media Scanner"@.len()) =~= "Plex Media Scanner"@);
    assert(text::occurs_at(b, n, "Plex Media Scanner"@));
}

/// The instructions go to the one address throughout, and to the page that was opened for them: what
/// is opened holds the address, and it is that which is closed again. Where nothing could be written
/// and no page opened, nothing is said to be replaced; where one of the ways worked, the processor is
/// told, and then it is.
pub proof fn law_patch_goes_to_its_address(p: Patching, size: u64, first: bool, second: bool)
    requires
        p.stage == PatchStage::Written,
        size > 0,
        size & ((size - 1) as u64) == 0,
    ensures
        ({
            let told = patch_turn(patch_turn(p, true, size).0, first, size);
            &&& patch_turn(p, true, size).1 == (PatchAction::Flush { address: p.address })
            &&& told.1 == (PatchAction::Stop { replaced: true })
        }),
        ({
            let asked = patch_turn(p, false, size);
            let opened = patch_turn(asked.0, second, size);
            let tried = patch_turn(opened.0, first, size);
            let last = patch_turn(tried.0, second, size);
            &&& asked.1 == PatchAction::PageSize
            &&& opened.1 matches PatchAction::Open { start, size: length, executable } && {
                &&& start <= p.address < start + size
                &&& start & ((size - 1) as u64) == 0
                &&& length == size
                &&& !executable
                &&& first ==> tried.1 == (PatchAction::CopyAndClose {
                    address: p.address,
                    start,
                    size,
                }) && last.1 == (PatchAction::Flush { address: p.address })
                &&& !first ==> tried.1 == (PatchAction::Open { start, size, executable: true })
                &&& !first && second ==> last.1 == (PatchAction::CopyAndClose {
                    address: p.address,
                    start,
                    size,
                })
                &&& !first && !second ==> last.1 == (PatchAction::Stop { replaced: false })
            }
            &&& patch_turn(asked.0, second, 0).1 == (PatchAction::Stop { replaced: false })
        }),
{
    let a = p.address;
    let m = (size - 1) as u64;
    assert(a & !m <= a && a - (a & !m) <= m && (a & !m) & m == 0) by (bit_vector);
}

} // verus!
