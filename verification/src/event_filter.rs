//! The example decoder's line filter: a raw payload is newline-separated
//! XML records, and only process-creation, network-connection and
//! file-creation records (event ids 1, 3 and 11) are kept.

use vstd::prelude::*;

verus! {

/// The lines of a byte payload, split on every newline: one line before
/// each newline and one after the last, so empty lines are kept.
pub open spec fn split_lines(s: Seq<u8>) -> Seq<Seq<u8>>
    decreases s.len(),
{
    if s.len() == 0 {
        seq![Seq::<u8>::empty()]
    } else if s[0] == 10 {
        seq![Seq::<u8>::empty()] + split_lines(s.drop_first())
    } else {
        let rest = split_lines(s.drop_first());
        seq![seq![s[0]] + rest[0]] + rest.drop_first()
    }
}

/// A split holds at least the line being read.
pub proof fn lemma_split_lines_len(s: Seq<u8>)
    ensures
        split_lines(s).len() >= 1,
    decreases s.len(),
{
    if s.len() > 0 {
        lemma_split_lines_len(s.drop_first());
    }
}

/// Appending a newline closes the open line and opens an empty one.
proof fn lemma_split_push_newline(t: Seq<u8>)
    ensures
        split_lines(t.push(10)) == split_lines(t).push(Seq::<u8>::empty()),
    decreases t.len(),
{
    lemma_split_lines_len(t);
    let u = t.push(10);
    if t.len() == 0 {
        assert(u.len() == 1 && u[0] == 10);
        assert(u.drop_first() =~= Seq::<u8>::empty());
        assert(split_lines(Seq::<u8>::empty()) == seq![Seq::<u8>::empty()]);
        assert(split_lines(u) == seq![Seq::<u8>::empty()] + split_lines(u.drop_first()));
        assert(split_lines(u) =~~= split_lines(t).push(Seq::<u8>::empty()));
    } else {
        lemma_split_push_newline(t.drop_first());
        lemma_split_lines_len(t.drop_first());
        assert(u.drop_first() =~= t.drop_first().push(10));
        let rest_t = split_lines(t.drop_first());
        let rest_u = split_lines(u.drop_first());
        assert(rest_u == rest_t.push(Seq::<u8>::empty()));
        assert(u[0] == t[0]);
        if t[0] == 10 {
            assert(split_lines(u) == seq![Seq::<u8>::empty()] + rest_u);
            assert(split_lines(t) == seq![Seq::<u8>::empty()] + rest_t);
            assert(split_lines(u) =~~= split_lines(t).push(Seq::<u8>::empty()));
        } else {
            assert(split_lines(u) == seq![seq![u[0]] + rest_u[0]] + rest_u.drop_first());
            assert(split_lines(t) == seq![seq![t[0]] + rest_t[0]] + rest_t.drop_first());
            assert(rest_u[0] == rest_t[0]);
            assert(rest_u.drop_first() =~= rest_t.drop_first().push(Seq::<u8>::empty()));
            assert(split_lines(u) =~~= split_lines(t).push(Seq::<u8>::empty()));
        }
    }
}

/// Appending an ordinary byte extends the open line.
proof fn lemma_split_push_byte(t: Seq<u8>, b: u8)
    requires
        b != 10,
    ensures
        split_lines(t.push(b)) == split_lines(t).update(
            split_lines(t).len() - 1,
            split_lines(t).last().push(b),
        ),
    decreases t.len(),
{
    lemma_split_lines_len(t);
    let u = t.push(b);
    if t.len() == 0 {
        assert(u.len() == 1 && u[0] == b);
        assert(u.drop_first() =~= Seq::<u8>::empty());
        assert(split_lines(Seq::<u8>::empty()) == seq![Seq::<u8>::empty()]);
        assert(split_lines(u) == seq![seq![u[0]] + split_lines(u.drop_first())[0]]
            + split_lines(u.drop_first()).drop_first());
        assert(split_lines(u) =~~= split_lines(t).update(0, split_lines(t).last().push(b)));
    } else {
        lemma_split_push_byte(t.drop_first(), b);
        lemma_split_lines_len(t.drop_first());
        assert(u.drop_first() =~= t.drop_first().push(b));
        let rest_t = split_lines(t.drop_first());
        let rest_u = split_lines(u.drop_first());
        assert(rest_u == rest_t.update(rest_t.len() - 1, rest_t.last().push(b)));
        assert(u[0] == t[0]);
        if t[0] == 10 {
            assert(split_lines(u) == seq![Seq::<u8>::empty()] + rest_u);
            assert(split_lines(t) == seq![Seq::<u8>::empty()] + rest_t);
            assert(split_lines(t).last() == rest_t.last());
            assert(split_lines(u) =~~= split_lines(t).update(
                split_lines(t).len() - 1,
                split_lines(t).last().push(b),
            ));
        } else {
            assert(split_lines(u) == seq![seq![u[0]] + rest_u[0]] + rest_u.drop_first());
            assert(split_lines(t) == seq![seq![t[0]] + rest_t[0]] + rest_t.drop_first());
            if rest_t.len() == 1 {
                assert(rest_u[0] == rest_t[0].push(b));
                assert(split_lines(t).len() == 1);
                assert(split_lines(t).last() == seq![t[0]] + rest_t[0]);
                assert(split_lines(u) =~~= split_lines(t).update(
                    split_lines(t).len() - 1,
                    split_lines(t).last().push(b),
                ));
            } else {
                assert(rest_u[0] == rest_t[0]);
                assert(rest_u.drop_first() =~= rest_t.drop_first().update(
                    rest_t.drop_first().len() - 1,
                    rest_t.drop_first().last().push(b),
                ));
                assert(split_lines(t).last() == rest_t.last());
                assert(rest_t.last() == rest_t.drop_first().last());
                assert(split_lines(u) =~~= split_lines(t).update(
                    split_lines(t).len() - 1,
                    split_lines(t).last().push(b),
                ));
            }
        }
    }
}

/// Whether `p` occurs in `s` as a contiguous run.
pub open spec fn contains_sub(s: Seq<u8>, p: Seq<u8>) -> bool {
    exists|i: int|
        0 <= i && i + p.len() <= s.len() && #[trigger] s.subrange(i, i + p.len()) == p
}

/// The bytes of `EventID>1<`: a process-creation record.
pub open spec fn marker_process_create() -> Seq<u8> {
    seq![69u8, 118u8, 101u8, 110u8, 116u8, 73u8, 68u8, 62u8, 49u8, 60u8]
}

/// The bytes of `EventID>3<`: a network-connection record.
pub open spec fn marker_network_connect() -> Seq<u8> {
    seq![69u8, 118u8, 101u8, 110u8, 116u8, 73u8, 68u8, 62u8, 51u8, 60u8]
}

/// The bytes of `EventID>11<`: a file-creation record.
pub open spec fn marker_file_create() -> Seq<u8> {
    seq![69u8, 118u8, 101u8, 110u8, 116u8, 73u8, 68u8, 62u8, 49u8, 49u8, 60u8]
}

/// A line worth handling: non-empty and holding one of the three wanted
/// event ids.
pub open spec fn line_wanted(line: Seq<u8>) -> bool {
    line.len() != 0 && (contains_sub(line, marker_process_create()) || contains_sub(
        line,
        marker_network_connect(),
    ) || contains_sub(line, marker_file_create()))
}

/// The bytes of `EventID>`, shared by the three markers.
fn marker_head(out: &mut Vec<u8>)
    requires
        old(out)@.len() == 0,
    ensures
        final(out)@ =~= seq![69u8, 118u8, 101u8, 110u8, 116u8, 73u8, 68u8, 62u8],
{
    out.push(69);
    out.push(118);
    out.push(101);
    out.push(110);
    out.push(116);
    out.push(73);
    out.push(68);
    out.push(62);
}

/// Whether a contiguous run of `line` equals `marker`.
fn contains_marker(line: &Vec<u8>, marker: &Vec<u8>) -> (r: bool)
    ensures
        r == contains_sub(line@, marker@),
{
    if marker.len() == 0 {
        proof {
            assert(0 + marker@.len() <= line@.len());
            assert(line@.subrange(0, 0 + marker@.len() as int) =~= marker@);
        }
        return true;
    }
    if marker.len() > line.len() {
        proof {
            if contains_sub(line@, marker@) {
                let i = choose|i: int|
                    0 <= i && i + marker@.len() <= line@.len() && #[trigger] line@.subrange(
                        i,
                        i + marker@.len(),
                    ) == marker@;
                assert(false);
            }
        }
        return false;
    }
    let mut i: usize = 0;
    while i <= line.len() - marker.len()
        invariant
            line@.len() <= usize::MAX,
            1 <= marker@.len() <= line@.len(),
            0 <= i <= line@.len() - marker@.len() + 1,
            forall|x: int|
                0 <= x < i ==> #[trigger] line@.subrange(x, x + marker@.len()) != marker@,
        decreases line@.len() - marker@.len() - i + 1,
    {
        let mut j: usize = 0;
        let mut matches = true;
        while j < marker.len()
            invariant
                line@.len() <= usize::MAX,
                marker@.len() <= line@.len(),
                0 <= i <= line@.len() - marker@.len(),
                0 <= j <= marker@.len(),
                matches ==> forall|y: int| 0 <= y < j ==> line@[i + y] == marker@[y],
                !matches ==> line@.subrange(i as int, i + marker@.len()) != marker@,
            decreases marker@.len() - j,
        {
            if line[i + j] != marker[j] {
                proof {
                    assert(line@.subrange(i as int, i + marker@.len())[j as int] != marker@[
                        j as int]);
                }
                matches = false;
            }
            j += 1;
        }
        if matches {
            proof {
                assert(line@.subrange(i as int, i + marker@.len()) =~= marker@);
            }
            return true;
        }
        i += 1;
    }
    proof {
        if contains_sub(line@, marker@) {
            let x = choose|x: int|
                0 <= x && x + marker@.len() <= line@.len() && #[trigger] line@.subrange(
                    x,
                    x + marker@.len(),
                ) == marker@;
            assert(false);
        }
    }
    false
}

/// Whether the line holds one of the three wanted event ids and is not
/// empty.
fn wanted(line: &Vec<u8>) -> (r: bool)
    ensures
        r == line_wanted(line@),
{
    if line.len() == 0 {
        return false;
    }
    let mut marker_one: Vec<u8> = Vec::new();
    marker_head(&mut marker_one);
    marker_one.push(49);
    marker_one.push(60);
    proof {
        assert(marker_one@ =~= marker_process_create());
    }
    let mut marker_three: Vec<u8> = Vec::new();
    marker_head(&mut marker_three);
    marker_three.push(51);
    marker_three.push(60);
    proof {
        assert(marker_three@ =~= marker_network_connect());
    }
    let mut marker_eleven: Vec<u8> = Vec::new();
    marker_head(&mut marker_eleven);
    marker_eleven.push(49);
    marker_eleven.push(49);
    marker_eleven.push(60);
    proof {
        assert(marker_eleven@ =~= marker_file_create());
    }
    contains_marker(line, &marker_one) || contains_marker(line, &marker_three) || contains_marker(
        line,
        &marker_eleven,
    )
}

/// Split a payload into newline-separated lines.
fn split_bytes(events: &[u8]) -> (r: Vec<Vec<u8>>)
    ensures
        r.deep_view() == split_lines(events@),
{
    let mut out: Vec<Vec<u8>> = Vec::new();
    let mut current: Vec<u8> = Vec::new();
    let mut i: usize = 0;
    proof {
        assert(events@.take(0) =~= Seq::<u8>::empty());
        assert(out.deep_view().push(current@) =~= split_lines(events@.take(0)));
    }
    while i < events.len()
        invariant
            0 <= i <= events@.len(),
            out.deep_view().push(current@) == split_lines(events@.take(i as int)),
        decreases events@.len() - i,
    {
        let ghost prefix = events@.take(i as int);
        let b = events[i];
        proof {
            assert(events@.take(i as int + 1) =~= prefix.push(events@[i as int]));
            lemma_split_lines_len(prefix);
        }
        let ghost out_before = out.deep_view();
        let ghost cur_before = current@;
        if b == 10 {
            out.push(current);
            current = Vec::new();
            proof {
                lemma_split_push_newline(prefix);
                assert(out.deep_view() =~~= out_before.push(cur_before));
                assert(out.deep_view().push(current@) =~~= split_lines(prefix).push(
                    Seq::<u8>::empty(),
                ));
                assert(out.deep_view().push(current@) == split_lines(
                    events@.take(i as int + 1),
                ));
            }
        } else {
            current.push(b);
            proof {
                lemma_split_push_byte(prefix, b);
                let lines = split_lines(prefix);
                assert(lines.last() == cur_before);
                assert(lines =~~= out_before.push(cur_before));
                assert(out.deep_view().push(current@) =~~= lines.update(
                    lines.len() - 1,
                    lines.last().push(b),
                ));
                assert(out.deep_view().push(current@) == split_lines(
                    events@.take(i as int + 1),
                ));
            }
        }
        i += 1;
    }
    proof {
        assert(events@.take(events@.len() as int) =~= events@);
    }
    let ghost out_final_before = out.deep_view();
    let ghost cur_final = current@;
    out.push(current);
    proof {
        assert(out.deep_view() =~~= out_final_before.push(cur_final));
        assert(out.deep_view() == split_lines(events@));
    }
    out
}

/// Split a raw payload on newlines and keep only the lines worth
/// handling: non-empty records of event ids 1, 3 and 11.
pub fn filter_event_lines(events: &[u8]) -> (r: Vec<Vec<u8>>)
    ensures
        r.deep_view() == split_lines(events@).filter(|l: Seq<u8>| line_wanted(l)),
{
    let ghost pred = |l: Seq<u8>| line_wanted(l);
    let lines = split_bytes(events);
    let ghost all = lines.deep_view();
    let mut out: Vec<Vec<u8>> = Vec::new();
    let mut remaining = lines;
    let ghost mut k: int = 0;
    proof {
        assert(all.take(0).filter(pred) =~= Seq::<Seq<u8>>::empty()) by {
            reveal(Seq::filter);
        }
        assert(out.deep_view() =~= all.take(0).filter(pred));
        assert(remaining.deep_view() =~= all.skip(0));
    }
    while remaining.len() > 0
        invariant
            0 <= k <= all.len(),
            remaining.deep_view() == all.skip(k),
            pred == (|l: Seq<u8>| line_wanted(l)),
            out.deep_view() == all.take(k).filter(pred),
        decreases remaining.len(),
    {
        let ghost before = remaining@;
        let ghost dv_before = remaining.deep_view();
        let line = remaining.remove(0);
        proof {
            assert(dv_before.len() == before.len());
            assert(dv_before.len() == all.skip(k).len());
            assert(k < all.len());
            assert(dv_before[0] == before[0].deep_view());
            assert(line.deep_view() == dv_before[0]);
            assert(dv_before[0] == all.skip(k)[0]);
            assert(all.skip(k)[0] == all[k]);
            assert(line.deep_view() == all[k]);
            assert(line@ =~= line.deep_view());
            assert(line@ == all[k]);
            assert forall|x: int| 0 <= x < remaining@.len() implies remaining.deep_view()[x]
                == all.skip(k + 1)[x] by {
                assert(remaining@[x] == before[x + 1]);
                assert(remaining.deep_view()[x] == remaining@[x].deep_view());
                assert(dv_before[x + 1] == before[x + 1].deep_view());
                assert(dv_before[x + 1] == all.skip(k)[x + 1]);
                assert(all.skip(k)[x + 1] == all[k + 1 + x]);
                assert(all.skip(k + 1)[x] == all[k + 1 + x]);
            }
            assert(remaining.deep_view() =~= all.skip(k + 1));
            assert(all.take(k + 1).drop_last() =~= all.take(k));
            assert(all.take(k + 1).last() == all[k]);
        }
        if wanted(&line) {
            out.push(line);
            proof {
                assert(all.take(k + 1).filter(pred) =~= all.take(k).filter(pred).push(all[k]))
                    by {
                    reveal(Seq::filter);
                }
                assert(out.deep_view() =~= all.take(k + 1).filter(pred));
            }
        } else {
            proof {
                assert(all.take(k + 1).filter(pred) =~= all.take(k).filter(pred)) by {
                    reveal(Seq::filter);
                }
            }
        }
        proof {
            k = k + 1;
        }
    }
    proof {
        assert(all.take(all.len() as int) =~= all);
    }
    out
}

} // verus!
