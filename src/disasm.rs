//! Disassembly to assembler text, with labels on jump targets.
use vstd::prelude::*;
use crate::decode::DecodeError;
use crate::decoder::{lemma_decode_progress, spec_decode_next, Decoder};
use crate::ops::{instruction_text, jump_displacement, relative_jump, Instruction};
use crate::text::{int_text, nat_text, push_int, push_nat, push_str};

verus! {

/// An instruction with the offsets before and after its bytes.
pub type Entry = (usize, usize, Instruction);

/// Why a binary could not be disassembled.
#[derive(Debug, Clone, Copy, PartialEq, Eq, Structural)]
pub enum DisassemblyError {
    /// The bytes at an offset are not an instruction.
    Decode(DecodeError),
    /// The jump that ends at this offset targets a negative offset.
    JumpOutOfRange(usize),
}

/// Offset after the last entry, 0 for none.
pub open spec fn listing_end(v: Seq<Entry>) -> int {
    if v.len() == 0 {
        0
    } else {
        v.last().1 as int
    }
}

/// Each entry is the instruction decoded where the previous one ended,
/// starting at offset 0.
pub open spec fn is_decoded_prefix(s: Seq<u8>, v: Seq<Entry>) -> bool {
    &&& forall|k: int|
        0 <= k < v.len() ==> spec_decode_next(s, #[trigger] v[k].0) == Ok::<
            Option<(Instruction, usize)>,
            DecodeError,
        >(Some((v[k].2, v[k].1)))
    &&& forall|k: int|
        0 <= k < v.len() ==> #[trigger] v[k].0 == (if k == 0 {
            0
        } else {
            v[k - 1].1 as int
        })
}

/// The whole of `s` decoded, instruction after instruction.
pub open spec fn is_listing(s: Seq<u8>, v: Seq<Entry>) -> bool {
    is_decoded_prefix(s, v) && listing_end(v) >= s.len()
}

/// The absolute offset that a jump entry targets.
pub open spec fn target_of(e: Entry) -> Option<int> {
    match jump_displacement(e.2) {
        Some(d) => Some(e.1 + d),
        None => None,
    }
}

/// Strictly ascending.
pub open spec fn ascending(t: Seq<usize>) -> bool {
    forall|i: int, j: int| 0 <= i < j < t.len() ==> t[i] < t[j]
}

/// Every jump in `v` targets an offset from 0 to `usize::MAX`.
pub open spec fn targets_in_range(v: Seq<Entry>) -> bool {
    forall|k: int|
        0 <= k < v.len() ==> (#[trigger] target_of(v[k]) matches Some(x) ==> 0 <= x <= usize::MAX)
}

/// Some jump among the first `n` entries of `v` targets `x`.
pub open spec fn is_target(v: Seq<Entry>, n: int, x: int) -> bool {
    exists|k: int| 0 <= k < n && k < v.len() && #[trigger] target_of(v[k]) == Some(x)
}

/// The targets of the jumps in `v`, each once, in ascending order.
pub open spec fn is_label_table(v: Seq<Entry>, t: Seq<usize>) -> bool {
    &&& ascending(t)
    &&& targets_in_range(v)
    &&& forall|i: int| 0 <= i < t.len() ==> is_target(v, v.len() as int, #[trigger] t[i] as int)
    &&& forall|k: int|
        0 <= k < v.len() && target_of(v[k]) is Some ==> t.contains(
            (#[trigger] target_of(v[k])).unwrap() as usize,
        )
}

/// The label of the `i`-th target (counting from 0).
pub open spec fn label_name(i: int) -> Seq<char> {
    "label_"@ + nat_text((i + 1) as nat)
}

/// The label of target `x` in the table.
pub open spec fn label_at(t: Seq<usize>, x: int) -> Seq<char> {
    label_name(choose|i: int| 0 <= i < t.len() && t[i] == x)
}

/// One entry's text: its label line if it is a target, then the instruction.
pub open spec fn line_text(e: Entry, t: Seq<usize>) -> Seq<char> {
    (if t.contains(e.0) {
        label_at(t, e.0 as int) + ":\n"@
    } else {
        Seq::empty()
    }) + instruction_text(
        e.2,
        match target_of(e) {
            Some(x) => label_at(t, x),
            None => Seq::empty(),
        },
    ) + "\n"@
}

pub open spec fn listing_text(v: Seq<Entry>, t: Seq<usize>) -> Seq<char>
    decreases v.len(),
{
    if v.len() == 0 {
        Seq::empty()
    } else {
        listing_text(v.drop_last(), t) + line_text(v.last(), t)
    }
}

/// Decoding is deterministic: a decoded prefix is a prefix of every listing.
pub proof fn lemma_prefix_of_listing(s: Seq<u8>, u: Seq<Entry>, v: Seq<Entry>)
    requires
        is_decoded_prefix(s, u),
        is_listing(s, v),
    ensures
        u.len() <= v.len(),
        forall|k: int| 0 <= k < u.len() ==> u[k] == v[k],
    decreases u.len(),
{
    if u.len() > 0 {
        let w = u.drop_last();
        assert(is_decoded_prefix(s, w)) by {
            assert forall|k: int| 0 <= k < w.len() implies #[trigger] w[k].0 == (if k == 0 {
                0
            } else {
                w[k - 1].1 as int
            }) by {
                assert(w[k] == u[k]);
                if k > 0 {
                    assert(w[k - 1] == u[k - 1]);
                }
            }
            assert forall|k: int| 0 <= k < w.len() implies spec_decode_next(s, #[trigger] w[k].0)
                == Ok::<Option<(Instruction, usize)>, DecodeError>(Some((w[k].2, w[k].1))) by {
                assert(w[k] == u[k]);
            }
        }
        lemma_prefix_of_listing(s, w, v);
        let n = w.len();
        let last = u[n as int];
        assert(last.0 == listing_end(w));
        if n == v.len() {
            assert(listing_end(w) == listing_end(v));
            assert(spec_decode_next(s, last.0) == Ok::<Option<(Instruction, usize)>, DecodeError>(
                None,
            ));
        } else {
            assert(v[n as int].0 == listing_end(w));
            assert(u[n as int] == v[n as int]);
        }
        assert forall|k: int| 0 <= k < u.len() implies u[k] == v[k] by {
            if k < n {
                assert(u[k] == w[k]);
            }
        }
    }
}

/// Where the bytes decode completely, decoding after any decoded prefix
/// succeeds.
proof fn lemma_no_error_in_listing(s: Seq<u8>, u: Seq<Entry>, v: Seq<Entry>)
    requires
        is_decoded_prefix(s, u),
        is_listing(s, v),
    ensures
        spec_decode_next(s, listing_end(u) as usize) is Ok,
{
    lemma_prefix_of_listing(s, u, v);
    let n = u.len();
    if n == v.len() {
        if n > 0 {
            assert(u[n - 1] == v[n - 1]);
        }
        assert(listing_end(u) == listing_end(v));
    } else {
        if n > 0 {
            assert(u[n - 1] == v[n - 1]);
        }
        assert(v[n as int].0 == listing_end(u));
    }
}

/// Two listings of the same bytes are equal.
proof fn lemma_listing_unique(s: Seq<u8>, u: Seq<Entry>, v: Seq<Entry>)
    requires
        is_listing(s, u),
        is_listing(s, v),
    ensures
        u == v,
{
    lemma_prefix_of_listing(s, u, v);
    lemma_prefix_of_listing(s, v, u);
    assert(u =~= v);
}

/// Decodes all of `bytes` from offset 0.
pub fn decode_all(decoder: &Decoder, bytes: &[u8]) -> (r: Result<Vec<Entry>, DecodeError>)
    requires
        decoder.wf(),
    ensures
        r matches Ok(v) ==> is_listing(bytes@, v@),
        (exists|v: Seq<Entry>| is_listing(bytes@, v)) ==> r is Ok,
        r matches Err(e) ==> exists|v: Seq<Entry>|
            is_decoded_prefix(bytes@, v) && spec_decode_next(bytes@, listing_end(v) as usize) == Err::<
                Option<(Instruction, usize)>,
                DecodeError,
            >(e),
{
    let mut v: Vec<Entry> = Vec::new();
    let mut pos: usize = 0;
    while pos < bytes.len()
        invariant
            is_decoded_prefix(bytes@, v@),
            pos == listing_end(v@),
            pos <= bytes@.len(),
            decoder.wf(),
        decreases bytes@.len() - pos,
    {
        proof {
            lemma_decode_progress(bytes@, pos);
        }
        match decoder.decode_next(bytes, pos) {
            Err(e) => {
                proof {
                    if exists|w: Seq<Entry>| is_listing(bytes@, w) {
                        let w = choose|w: Seq<Entry>| is_listing(bytes@, w);
                        lemma_no_error_in_listing(bytes@, v@, w);
                    }
                }
                return Err(e);
            },
            Ok(None) => {
                proof {
                    assert(false);
                }
                return Ok(v);
            },
            Ok(Some((instruction, q))) => {
                let ghost old_v = v@;
                v.push((pos, q, instruction));
                proof {
                    assert forall|k: int| 0 <= k < v@.len() implies #[trigger] v@[k].0 == (if k == 0 {
                        0
                    } else {
                        v@[k - 1].1 as int
                    }) by {
                        if k < old_v.len() {
                            assert(v@[k] == old_v[k]);
                        }
                    }
                }
                pos = q;
            },
        }
    }
    Ok(v)
}

/// `l` is the label of the target of a jump with displacement `disp` that
/// ends at `current`, when the table holds that target.
pub open spec fn labels_jump(t: Seq<usize>, current: usize, disp: i8, l: Seq<char>) -> bool {
    (ascending(t) && 0 <= current + disp <= usize::MAX && t.contains((current + disp) as usize))
        ==> l == label_at(t, current + disp)
}

/// The offset `current + disp`, `None` when it is negative.
pub fn to_absolute(disp: i8, current: usize) -> (r: Option<usize>)
    ensures
        r == if 0 <= current + disp <= usize::MAX {
            Some((current + disp) as usize)
        } else {
            None::<usize>
        },
{
    if disp < 0 {
        let back = (0 - (disp as i16)) as usize;
        if back <= current {
            Some(current - back)
        } else {
            None
        }
    } else {
        let fwd = disp as usize;
        if fwd <= usize::MAX - current {
            Some(current + fwd)
        } else {
            None
        }
    }
}

/// The index of `x` in the table, if it is there.
fn find_target(t: &Vec<usize>, x: usize) -> (r: Option<usize>)
    ensures
        r matches Some(i) ==> i < t@.len() && t@[i as int] == x,
        r is None ==> !t@.contains(x),
{
    let mut i: usize = 0;
    while i < t.len()
        invariant
            i <= t@.len(),
            forall|j: int| 0 <= j < i ==> t@[j] != x,
        decreases t@.len() - i,
    {
        if t[i] == x {
            return Some(i);
        }
        i = i + 1;
    }
    None
}

fn ascending_check(t: &Vec<usize>) -> (r: bool)
    ensures
        r == ascending(t@),
{
    let mut i: usize = 1;
    if t.len() == 0 {
        return true;
    }
    while i < t.len()
        invariant
            1 <= i <= t@.len(),
            forall|a: int, b: int| 0 <= a < b < i ==> t@[a] < t@[b],
        decreases t@.len() - i,
    {
        if t[i - 1] >= t[i] {
            return false;
        }
        i = i + 1;
    }
    true
}

/// The label of a jump with displacement `disp` that ends at `current`; the
/// displacement itself when the target has no label.
pub fn to_label(disp: i8, current: usize, t: &Vec<usize>) -> (r: String)
    ensures
        (ascending(t@) && 0 <= current + disp <= usize::MAX && t@.contains((current + disp) as usize)) ==> r@ == label_at(
            t@,
            current + disp,
        ),
        !(ascending(t@) && 0 <= current + disp <= usize::MAX && t@.contains(
            (current + disp) as usize,
        )) ==> r@ == int_text(disp as int),
{
    let mut s = String::new();
    match to_absolute(disp, current) {
        Some(x) => match find_target(t, x) {
            Some(i) => {
                if !ascending_check(t) {
                    push_int(&mut s, disp as i64);
                    proof {
                        assert(s@ =~= int_text(disp as int));
                    }
                    return s;
                }
                let n = t.len();
                assert(i < n);
                push_str(&mut s, "label_");
                push_nat(&mut s, (i + 1) as u64);
                proof {
                    let c = choose|k: int| 0 <= k < t@.len() && t@[k] == x;
                    assert(c == i as int) by {
                        if c < i {
                            assert(t@[c] < t@[i as int]);
                        }
                        if c > i {
                            assert(t@[i as int] < t@[c]);
                        }
                    }
                    assert(s@ =~= label_at(t@, current + disp));
                }
                return s;
            },
            None => {},
        },
        None => {},
    }
    push_int(&mut s, disp as i64);
    proof {
        assert(s@ =~= int_text(disp as int));
    }
    s
}

/// Adds `x` to a strictly ascending table, which stays strictly ascending.
fn insert_sorted(t: &mut Vec<usize>, x: usize)
    requires
        ascending(old(t)@),
    ensures
        ascending(final(t)@),
        forall|y: usize| #[trigger] final(t)@.contains(y) <==> (old(t)@.contains(y) || y == x),
{
    let mut i: usize = 0;
    while i < t.len() && t[i] < x
        invariant
            i <= t@.len(),
            forall|j: int| 0 <= j < i ==> t@[j] < x,
        decreases t@.len() - i,
    {
        i = i + 1;
    }
    if i < t.len() && t[i] == x {
        return;
    }
    let ghost old_t = t@;
    t.insert(i, x);
    proof {
        assert(t@ == old_t.insert(i as int, x));
        assert forall|a: int, b: int| 0 <= a < b < t@.len() implies t@[a] < t@[b] by {
            if b < i {
            } else if a < i && b == i {
            } else if a < i {
                assert(t@[b] == old_t[b - 1]);
            } else if a == i {
                assert(t@[b] == old_t[b - 1]);
                assert(old_t[i as int] <= old_t[b - 1]);
            } else {
                assert(t@[a] == old_t[a - 1]);
                assert(t@[b] == old_t[b - 1]);
            }
        }
        assert forall|y: usize| #[trigger] t@.contains(y) <==> (old_t.contains(y) || y == x) by {
            if t@.contains(y) {
                let j = choose|j: int| 0 <= j < t@.len() && t@[j] == y;
                if j < i {
                    assert(old_t[j] == y);
                } else if j > i {
                    assert(old_t[j - 1] == y);
                }
            }
            if old_t.contains(y) {
                let j = choose|j: int| 0 <= j < old_t.len() && old_t[j] == y;
                if j < i {
                    assert(t@[j] == y);
                } else {
                    assert(t@[j + 1] == y);
                }
            }
            if y == x {
                assert(t@[i as int] == x);
            }
        }
    }
}

/// The jump targets of the entries, ascending and each once.
pub fn collect_targets(entries: &Vec<Entry>) -> (r: Result<Vec<usize>, DisassemblyError>)
    ensures
        r matches Ok(t) ==> is_label_table(entries@, t@),
        targets_in_range(entries@) ==> r is Ok,
        r matches Err(e) ==> exists|k: int|
            0 <= k < entries@.len() && e == DisassemblyError::JumpOutOfRange(entries@[k].1)
                && (#[trigger] target_of(entries@[k]) matches Some(x) && !(0 <= x <= usize::MAX)),
{
    let mut t: Vec<usize> = Vec::new();
    let mut n: usize = 0;
    while n < entries.len()
        invariant
            n <= entries@.len(),
            ascending(t@),
            forall|i: int| 0 <= i < t@.len() ==> is_target(entries@, n as int, #[trigger] t@[i] as int),
            forall|k: int|
                0 <= k < n && target_of(entries@[k]) is Some ==> t@.contains(
                    (#[trigger] target_of(entries@[k])).unwrap() as usize,
                ),
            forall|k: int|
                0 <= k < n ==> (#[trigger] target_of(entries@[k]) matches Some(x) ==> 0 <= x
                    <= usize::MAX),
        decreases entries@.len() - n,
    {
        let e = entries[n];
        match relative_jump(&e.2) {
            Some(d) => match to_absolute(d, e.1) {
                None => {
                    assert(target_of(entries@[n as int]) == Some(e.1 + d));
                    return Err(DisassemblyError::JumpOutOfRange(e.1));
                },
                Some(x) => {
                    let ghost old_t = t@;
                    insert_sorted(&mut t, x);
                    proof {
                        assert(target_of(entries@[n as int]) == Some(x as int));
                        assert forall|i: int| 0 <= i < t@.len() implies is_target(
                            entries@,
                            n + 1,
                            #[trigger] t@[i] as int,
                        ) by {
                            assert(t@.contains(t@[i]));
                            if t@[i] != x {
                                assert(old_t.contains(t@[i]));
                                let j = choose|j: int| 0 <= j < old_t.len() && old_t[j] == t@[i];
                                assert(old_t[j] == t@[i]);
                                assert(is_target(entries@, n as int, old_t[j] as int));
                                let k = choose|k: int|
                                    0 <= k < n && k < entries@.len() && #[trigger] target_of(entries@[k])
                                        == Some(old_t[j] as int);
                                assert(target_of(entries@[k]) == Some(t@[i] as int));
                            } else {
                                assert(target_of(entries@[n as int]) == Some(t@[i] as int));
                            }
                        }
                        assert forall|k: int|
                            0 <= k < n + 1 && target_of(entries@[k]) is Some implies t@.contains(
                            (#[trigger] target_of(entries@[k])).unwrap() as usize,
                        ) by {
                            if k < n {
                                assert(old_t.contains(target_of(entries@[k]).unwrap() as usize));
                            }
                        }
                    }
                },
            },
            None => {
                assert(target_of(entries@[n as int]) is None);
            },
        }
        n = n + 1;
    }
    proof {
        assert(is_label_table(entries@, t@));
    }
    Ok(t)
}

/// Assembler text for a binary: `bits 16`, then one line per instruction,
/// with a label line before each jump target and labels in the jumps.
pub fn disassemble(bytes: &[u8]) -> (r: Result<String, DisassemblyError>)
    ensures
        r matches Ok(text) ==> exists|v: Seq<Entry>, t: Seq<usize>|
            is_listing(bytes@, v) && is_label_table(v, t) && text@ == "bits 16\n"@ + listing_text(v, t),
        r matches Err(DisassemblyError::Decode(e)) ==> exists|v: Seq<Entry>|
            is_decoded_prefix(bytes@, v) && spec_decode_next(bytes@, listing_end(v) as usize) == Err::<
                Option<(Instruction, usize)>,
                DecodeError,
            >(e),
        (exists|v: Seq<Entry>| is_listing(bytes@, v) && targets_in_range(v)) ==> r is Ok,
        r matches Err(DisassemblyError::JumpOutOfRange(p)) ==> exists|v: Seq<Entry>, k: int|
            is_listing(bytes@, v) && 0 <= k < v.len() && v[k].1 == p && (#[trigger] target_of(v[k]) matches Some(
                x,
            ) && !(0 <= x <= usize::MAX)),
{
    let decoder = Decoder::new();
    let entries = match decode_all(&decoder, bytes) {
        Ok(v) => v,
        Err(e) => {
            proof {
                if exists|v: Seq<Entry>| is_listing(bytes@, v) && targets_in_range(v) {
                    let v = choose|v: Seq<Entry>| is_listing(bytes@, v) && targets_in_range(v);
                    let u = choose|u: Seq<Entry>|
                        is_decoded_prefix(bytes@, u) && spec_decode_next(
                            bytes@,
                            listing_end(u) as usize,
                        ) == Err::<Option<(Instruction, usize)>, DecodeError>(e);
                    lemma_no_error_in_listing(bytes@, u, v);
                }
            }
            return Err(DisassemblyError::Decode(e));
        },
    };
    proof {
        if exists|v: Seq<Entry>| is_listing(bytes@, v) && targets_in_range(v) {
            let v = choose|v: Seq<Entry>| is_listing(bytes@, v) && targets_in_range(v);
            lemma_listing_unique(bytes@, entries@, v);
        }
    }
    let targets = match collect_targets(&entries) {
        Ok(t) => t,
        Err(e) => return Err(e),
    };
    let mut s = String::new();
    push_str(&mut s, "bits 16\n");
    let mut n: usize = 0;
    while n < entries.len()
        invariant
            n <= entries@.len(),
            is_label_table(entries@, targets@),
            s@ == "bits 16\n"@ + listing_text(entries@.take(n as int), targets@),
        decreases entries@.len() - n,
    {
        let ghost s0 = s@;
        let e = entries[n];
        match find_target(&targets, e.0) {
            Some(i) => {
                let count = targets.len();
                assert(i < count);
                push_str(&mut s, "label_");
                push_nat(&mut s, (i + 1) as u64);
                push_str(&mut s, ":\n");
                proof {
                    let c = choose|k: int| 0 <= k < targets@.len() && targets@[k] == e.0;
                    assert(c == i as int) by {
                        if c < i {
                            assert(targets@[c] < targets@[i as int]);
                        }
                        if c > i {
                            assert(targets@[i as int] < targets@[c]);
                        }
                    }
                    assert(targets@.contains(e.0));
                    assert(s@ =~= s0 + (label_at(targets@, e.0 as int) + ":\n"@));
                }
            },
            None => {},
        }
        let after = e.1;
        let table = &targets;
        let format_jump = |disp: i8| -> (l: String)
            ensures
                labels_jump(table@, after, disp, l@),
            { to_label(disp, after, table) };
        let line = e.2.encode(format_jump);
        push_str(&mut s, line.as_str());
        push_str(&mut s, "\n");
        proof {
            assert(entries@[n as int] == e);
            assert(targets_in_range(entries@));
            match target_of(e) {
                Some(x) => {
                    assert(target_of(entries@[n as int]) == Some(x));
                    assert(targets@.contains(x as usize));
                },
                None => {},
            }
            assert(line@ == instruction_text(
                e.2,
                match target_of(e) {
                    Some(x) => label_at(targets@, x),
                    None => Seq::empty(),
                },
            ));
            assert(s@ =~= s0 + line_text(e, targets@));
            let v1 = entries@.take(n + 1);
            assert(v1.drop_last() =~= entries@.take(n as int));
            assert(v1.last() == e);
            assert(s@ =~= "bits 16\n"@ + listing_text(v1, targets@));
        }
        n = n + 1;
    }
    proof {
        assert(entries@.take(entries@.len() as int) =~= entries@);
    }
    Ok(s)
}

} // verus!
