//! Addresses that name a server become addresses that name the library alone.

use crate::bytes;
use crate::search;
use vstd::prelude::*;
use vstd::string::*;

verus! {

/// Where such an address begins.
pub open spec fn server_prefix() -> Seq<u8> {
    "server://".spec_bytes()
}

/// The part of the path that leads to the library.
pub open spec fn library_part() -> Seq<u8> {
    "/com.plexapp.plugins.library/library/".spec_bytes()
}

/// What takes the place of the beginning up to and with that part.
pub open spec fn library_prefix() -> Seq<u8> {
    "library://".spec_bytes()
}

/// How long the three are.
pub proof fn lemma_lengths()
    ensures
        server_prefix().len() == 9,
        library_part().len() == 37,
        library_prefix().len() == 10,
{
    reveal_strlit("server://");
    reveal_strlit("/com.plexapp.plugins.library/library/");
    reveal_strlit("library://");
    is_ascii_spec_bytes("server://");
    is_ascii_spec_bytes("/com.plexapp.plugins.library/library/");
    is_ascii_spec_bytes("library://");
}

/// What is found lies within the text.
pub proof fn lemma_found(s: Seq<u8>, from: int, pat: Seq<u8>)
    requires
        0 <= from,
    ensures
        match bytes::first_occurrence(s, from, pat) {
            Some(i) => from <= i && i + pat.len() <= s.len(),
            None => true,
        },
{
    search::lemma_first_index(|i: int| bytes::occurs_at(s, i, pat), from, s.len() as int + 1);
}

/// The text from `i` on, rewritten, and how many addresses were rewritten: each beginning of an
/// address goes, with what follows up to the library's part, where there is one behind it.
pub open spec fn rewritten(s: Seq<u8>, i: int) -> (Seq<u8>, nat)
    decreases s.len() - i,
{
    proof {
        lemma_lengths();
    }
    if i < 0 || i >= s.len() {
        (Seq::empty(), 0)
    } else {
        proof {
            lemma_found(s, i, server_prefix());
        }
        match bytes::first_occurrence(s, i, server_prefix()) {
            None => (s.skip(i), 0),
            Some(m) => {
                let behind = m + server_prefix().len();
                proof {
                    lemma_found(s, behind, library_part());
                }
                match bytes::first_occurrence(s, behind, library_part()) {
                    Some(n) => {
                        let rest = rewritten(s, n + library_part().len());
                        (s.subrange(i, m) + library_prefix() + rest.0, rest.1 + 1)
                    },
                    None => {
                        let rest = rewritten(s, behind);
                        (s.subrange(i, m) + server_prefix() + rest.0, rest.1)
                    },
                }
            },
        }
    }
}

/// At most the first `cap` bytes.
pub open spec fn cut(s: Seq<u8>, cap: int) -> Seq<u8> {
    if s.len() <= cap {
        s
    } else {
        s.take(cap)
    }
}

proof fn lemma_cut_step(done: Seq<u8>, cap: int, part: Seq<u8>)
    requires
        0 <= cap,
    ensures
        bytes::capped(cut(done, cap), cap, part) == cut(done + part, cap),
{
    let a = bytes::capped(cut(done, cap), cap, part);
    let b = cut(done + part, cap);
    if done.len() >= cap {
        assert(a =~= b);
    } else if done.len() + part.len() <= cap {
        assert(a =~= b);
    } else {
        assert(a =~= b);
    }
}

/// The bytes from `from` up to `to`, appended as far as there is room.
fn push_range(out: &mut Vec<u8>, cap: usize, s: &[u8], from: usize, to: usize)
    requires
        from <= to <= s@.len(),
    ensures
        final(out)@ == bytes::capped(
            old(out)@,
            cap as int,
            s@.subrange(from as int, to as int),
        ),
{
    let part = vstd::slice::slice_subrange(s, from, to);
    bytes::push_capped(out, cap, part);
}

/// The text with its addresses rewritten, as far as it fits into `out_len` bytes with a zero behind
/// it, and whether any address was. Nothing comes of a buffer under 16 bytes, or of a text in
/// which either of the two parts does not occur.
pub fn rust_rewrite_server_library_uri(input: &[u8], out_len: usize) -> (r: Option<
    (Vec<u8>, bool),
>)
    ensures
        r is Some == (out_len >= 16 && bytes::first_occurrence(
            input@,
            0,
            server_prefix(),
        ) is Some && bytes::first_occurrence(input@, 0, library_part()) is Some),
        r matches Some((out, any)) ==> out@ == cut(rewritten(input@, 0).0, out_len - 1) && any == (
        rewritten(input@, 0).1 > 0),
{
    let server = "server://".as_bytes();
    let part = "/com.plexapp.plugins.library/library/".as_bytes();
    let library = "library://".as_bytes();
    proof {
        lemma_lengths();
    }
    if out_len < 16 {
        return None;
    }
    if bytes::find_subslice(input, server).is_none() || bytes::find_subslice(input, part).is_none() {
        return None;
    }
    let cap: usize = out_len - 1;
    let len: usize = input.len();
    let mut out: Vec<u8> = Vec::new();
    let mut pos: usize = 0;
    let mut any = false;
    let ghost mut done: Seq<u8> = Seq::empty();
    let ghost mut count: nat = 0;
    let ghost total = rewritten(input@, 0);
    proof {
        assert(done + total.0 == total.0);
    }
    while pos < len
        invariant
            server@ == server_prefix(),
            part@ == library_part(),
            library@ == library_prefix(),
            server@.len() == 9,
            part@.len() == 37,
            pos <= len == input@.len(),
            total == rewritten(input@, 0),
            total.0 == done + rewritten(input@, pos as int).0,
            total.1 == count + rewritten(input@, pos as int).1,
            out@ == cut(done, cap as int),
            any == (count > 0),
        decreases input@.len() - pos,
    {
        let ghost rest = rewritten(input@, pos as int);
        proof {
            lemma_found(input@, pos as int, server@);
        }
        match bytes::find_from(input, pos, server) {
            None => {
                push_range(&mut out, cap, input, pos, len);
                proof {
                    assert(input@.subrange(pos as int, input@.len() as int) == input@.skip(
                        pos as int,
                    ));
                    lemma_cut_step(done, cap as int, input@.skip(pos as int));
                    done = done + input@.skip(pos as int);
                    assert(done + Seq::<u8>::empty() == done);
                }
                pos = len;
            },
            Some(m) => {
                push_range(&mut out, cap, input, pos, m);
                let ghost lead = input@.subrange(pos as int, m as int);
                proof {
                    lemma_cut_step(done, cap as int, lead);
                    lemma_found(input@, m + 9, part@);
                }
                match bytes::find_from(input, m + 9, part) {
                    Some(n) => {
                        bytes::push_capped(&mut out, cap, library);
                        proof {
                            lemma_cut_step(done + lead, cap as int, library@);
                            let next = rewritten(input@, n + 37);
                            assert(rest.0 == lead + library@ + next.0);
                            assert(done + rest.0 =~= done + lead + library@ + next.0);
                            done = done + lead + library@;
                            count = count + 1;
                        }
                        pos = n + 37;
                        any = true;
                    },
                    None => {
                        bytes::push_capped(&mut out, cap, server);
                        proof {
                            lemma_cut_step(done + lead, cap as int, server@);
                            let next = rewritten(input@, m + 9);
                            assert(rest.0 == lead + server@ + next.0);
                            assert(done + rest.0 =~= done + lead + server@ + next.0);
                            done = done + lead + server@;
                        }
                        pos = m + 9;
                    },
                }
            },
        }
    }
    proof {
        assert(rewritten(input@, pos as int).0 =~= Seq::<u8>::empty());
        assert(done + Seq::<u8>::empty() == done);
    }
    Some((out, any))
}

/// What was written fits the buffer with a zero behind it.
pub proof fn law_output_fits(s: Seq<u8>, out_len: int)
    requires
        out_len >= 16,
    ensures
        cut(rewritten(s, 0).0, out_len - 1).len() < out_len,
{
}

/// The address of a server up to the library becomes the library's prefix, and what stands before
/// and behind it stays or is rewritten in the same way.
pub proof fn law_addresses_are_rewritten(s: Seq<u8>, m: int, n: int)
    requires
        bytes::first_occurrence(s, 0, "server://".spec_bytes()) == Some(m),
        bytes::first_occurrence(
            s,
            m + 9,
            "/com.plexapp.plugins.library/library/".spec_bytes(),
        ) == Some(n),
    ensures
        rewritten(s, 0).0 == s.subrange(0, m) + "library://".spec_bytes() + rewritten(s, n + 37).0,
        rewritten(s, 0).1 == rewritten(s, n + 37).1 + 1,
{
    lemma_lengths();
    lemma_found(s, 0, server_prefix());
    if s.len() == 0 {
        assert(false);
    }
}

/// A text without the address of a server stays as it is, and nothing was rewritten in it.
pub proof fn law_other_texts_stay(s: Seq<u8>)
    requires
        bytes::first_occurrence(s, 0, "server://".spec_bytes()) is None,
    ensures
        rewritten(s, 0) == (s, 0nat),
{
    assert(s.skip(0) =~= s);
    if s.len() == 0 {
        assert(s =~= Seq::<u8>::empty());
    }
}

} // verus!
