//! Input cleanup before any prompt is built: every line is trimmed, blank
//! lines stay as paragraph breaks, and the lines are rejoined with newlines.

use crate::text::{
    chars_to_string, is_space, is_space_char, lemma_trim_members, lemma_trim_no_edge_space,
    str_chars, trim_chars, trim_spec,
};
use vstd::prelude::*;

verus! {

/// The pieces of `s` between newline characters: always at least one piece,
/// each free of newlines.
pub open spec fn split_lines_spec(s: Seq<char>) -> Seq<Seq<char>>
    decreases s.len(),
{
    if s.len() == 0 {
        seq![Seq::<char>::empty()]
    } else if s[0] == '\n' {
        seq![Seq::<char>::empty()] + split_lines_spec(s.drop_first())
    } else {
        let rest = split_lines_spec(s.drop_first());
        seq![seq![s[0]] + rest[0]] + rest.drop_first()
    }
}

/// The lines of `s`, as `str::lines` cuts them apart from a trailing
/// newline: the piece after a final newline is not a line of its own.
pub open spec fn lines_of(s: Seq<char>) -> Seq<Seq<char>> {
    if s.len() == 0 {
        Seq::<Seq<char>>::empty()
    } else if s.last() == '\n' {
        split_lines_spec(s).drop_last()
    } else {
        split_lines_spec(s)
    }
}

/// A line neither starts nor ends with whitespace.
pub open spec fn line_is_trimmed(l: Seq<char>) -> bool {
    l.len() > 0 ==> !is_space_char(l[0]) && !is_space_char(l.last())
}

/// The pieces joined back with newlines.
pub open spec fn join_lines_spec(ps: Seq<Seq<char>>) -> Seq<char>
    decreases ps.len(),
{
    if ps.len() == 0 {
        Seq::<char>::empty()
    } else if ps.len() == 1 {
        ps[0]
    } else {
        ps[0] + seq!['\n'] + join_lines_spec(ps.drop_first())
    }
}

/// What the normalizer returns: each line trimmed, the lines rejoined with
/// newlines, and a trailing newline dropped with its empty last line.
pub open spec fn normalized_text_spec(s: Seq<char>) -> Seq<char> {
    join_lines_spec(lines_of(s).map_values(|l: Seq<char>| trim_spec(l)))
}

/// Appending a piece extends the join with a newline between.
proof fn lemma_join_push(ps: Seq<Seq<char>>, p: Seq<char>)
    requires
        ps.len() >= 1,
    ensures
        join_lines_spec(ps.push(p)) == join_lines_spec(ps) + seq!['\n'] + p,
    decreases ps.len(),
{
    if ps.len() == 1 {
        assert(ps.push(p).drop_first() =~= seq![p]);
        assert(join_lines_spec(seq![p]) == p);
        assert(join_lines_spec(ps.push(p)) =~= join_lines_spec(ps) + seq!['\n'] + p);
    } else {
        assert(ps.push(p).drop_first() =~= ps.drop_first().push(p));
        lemma_join_push(ps.drop_first(), p);
        assert(join_lines_spec(ps.push(p)) =~= join_lines_spec(ps) + seq!['\n'] + p);
    }
}

pub proof fn lemma_split_lines_len(s: Seq<char>)
    ensures
        split_lines_spec(s).len() >= 1,
    decreases s.len(),
{
    if s.len() > 0 {
        lemma_split_lines_len(s.drop_first());
    }
}

/// Splitting at newlines leaves no newline inside any piece.
pub proof fn lemma_split_lines_no_newline(s: Seq<char>)
    ensures
        forall|k: int, m: int|
            0 <= k < split_lines_spec(s).len() && 0 <= m < split_lines_spec(s)[k].len()
                ==> #[trigger] split_lines_spec(s)[k][m] != '\n',
    decreases s.len(),
{
    if s.len() > 0 {
        lemma_split_lines_no_newline(s.drop_first());
        lemma_split_lines_len(s.drop_first());
    }
}

/// How one appended character changes the split: a newline opens a new empty
/// piece, any other character extends the last piece.
proof fn lemma_split_push(s: Seq<char>, c: char)
    ensures
        c == '\n' ==> split_lines_spec(s.push(c)) == split_lines_spec(s).push(
            Seq::<char>::empty(),
        ),
        c != '\n' ==> split_lines_spec(s.push(c)) == split_lines_spec(s).update(
            split_lines_spec(s).len() - 1,
            split_lines_spec(s).last().push(c),
        ),
    decreases s.len(),
{
    lemma_split_lines_len(s);
    if s.len() == 0 {
        let t = s.push(c);
        assert(t.drop_first() =~= Seq::<char>::empty());
        assert(split_lines_spec(Seq::<char>::empty()) == seq![Seq::<char>::empty()]);
        if c == '\n' {
            assert(split_lines_spec(t) =~~= split_lines_spec(s).push(Seq::<char>::empty()));
        } else {
            assert(seq![s.push(c)[0]] + split_lines_spec(Seq::<char>::empty())[0] =~= seq![c]);
            assert(split_lines_spec(t) =~~= split_lines_spec(s).update(
                0,
                split_lines_spec(s).last().push(c),
            ));
        }
    } else {
        let t = s.push(c);
        let sdf = s.drop_first();
        assert(t.drop_first() =~= sdf.push(c));
        lemma_split_push(sdf, c);
        lemma_split_lines_len(sdf);
        let x = split_lines_spec(sdf);
        if s[0] == '\n' {
            assert(split_lines_spec(s) =~~= seq![Seq::<char>::empty()] + x);
            if c == '\n' {
                assert(split_lines_spec(t) =~~= (seq![Seq::<char>::empty()] + x).push(
                    Seq::<char>::empty(),
                ));
            } else {
                assert(split_lines_spec(t) =~~= (seq![Seq::<char>::empty()] + x).update(
                    x.len() as int,
                    x.last().push(c),
                ));
                assert((seq![Seq::<char>::empty()] + x).update(x.len() as int, x.last().push(c))
                    =~~= split_lines_spec(s).update(
                    split_lines_spec(s).len() - 1,
                    split_lines_spec(s).last().push(c),
                ));
            }
        } else {
            assert(split_lines_spec(s) =~~= seq![seq![s[0]] + x[0]] + x.drop_first());
            if c == '\n' {
                assert(x.push(Seq::<char>::empty())[0] == x[0]);
                assert(split_lines_spec(t) =~~= seq![seq![s[0]] + x[0]] + x.push(
                    Seq::<char>::empty(),
                ).drop_first());
                assert(seq![seq![s[0]] + x[0]] + x.push(Seq::<char>::empty()).drop_first()
                    =~~= split_lines_spec(s).push(Seq::<char>::empty()));
            } else {
                let xu = x.update(x.len() - 1, x.last().push(c));
                if x.len() == 1 {
                    assert(xu[0] == x[0].push(c));
                    assert(split_lines_spec(t) =~~= seq![seq![s[0]] + x[0].push(c)]
                        + xu.drop_first());
                    assert(seq![s[0]] + x[0].push(c) =~= (seq![s[0]] + x[0]).push(c));
                    assert(split_lines_spec(t) =~~= split_lines_spec(s).update(
                        split_lines_spec(s).len() - 1,
                        split_lines_spec(s).last().push(c),
                    ));
                } else {
                    assert(xu[0] == x[0]);
                    assert(split_lines_spec(t) =~~= seq![seq![s[0]] + x[0]] + xu.drop_first());
                    assert(seq![seq![s[0]] + x[0]] + xu.drop_first() =~~= split_lines_spec(
                        s,
                    ).update(
                        split_lines_spec(s).len() - 1,
                        split_lines_spec(s).last().push(c),
                    ));
                }
            }
        }
    }
}

/// Appends a newline-free piece to `out`, extending the last split piece.
fn append_piece(out: &mut Vec<char>, p: &Vec<char>)
    requires
        forall|m: int| 0 <= m < p@.len() ==> p@[m] != '\n',
    ensures
        final(out)@ == old(out)@ + p@,
        split_lines_spec(final(out)@) == split_lines_spec(old(out)@).update(
            split_lines_spec(old(out)@).len() - 1,
            split_lines_spec(old(out)@).last() + p@,
        ),
{
    proof {
        lemma_split_lines_len(old(out)@);
    }
    let ghost base = out@;
    let mut j: usize = 0;
    proof {
        assert(base + p@.take(0) =~= base);
        assert(split_lines_spec(base).update(
            split_lines_spec(base).len() - 1,
            split_lines_spec(base).last() + p@.take(0),
        ) =~~= split_lines_spec(base));
    }
    while j < p.len()
        invariant
            j <= p.len(),
            forall|m: int| 0 <= m < p@.len() ==> p@[m] != '\n',
            out@ == base + p@.take(j as int),
            split_lines_spec(out@) == split_lines_spec(base).update(
                split_lines_spec(base).len() - 1,
                split_lines_spec(base).last() + p@.take(j as int),
            ),
        decreases p.len() - j,
    {
        proof {
            lemma_split_lines_len(base);
            lemma_split_push(out@, p@[j as int]);
            assert(out@.push(p@[j as int]) =~= base + p@.take(j + 1));
            assert(split_lines_spec(base).update(
                split_lines_spec(base).len() - 1,
                split_lines_spec(base).last() + p@.take(j as int),
            ).last() == split_lines_spec(base).last() + p@.take(j as int));
            assert((split_lines_spec(base).last() + p@.take(j as int)).push(p@[j as int])
                =~= split_lines_spec(base).last() + p@.take(j + 1));
            assert(split_lines_spec(base).update(
                split_lines_spec(base).len() - 1,
                split_lines_spec(base).last() + p@.take(j as int),
            ).update(
                split_lines_spec(base).len() - 1,
                split_lines_spec(base).last() + p@.take(j + 1),
            ) =~~= split_lines_spec(base).update(
                split_lines_spec(base).len() - 1,
                split_lines_spec(base).last() + p@.take(j + 1),
            ));
        }
        out.push(p[j]);
        j = j + 1;
    }
    proof {
        assert(p@.take(p@.len() as int) =~= p@);
    }
}

/// Cuts `v` into its lines, as [`lines_of`] counts them.
pub fn lines_vec(v: &Vec<char>) -> (r: Vec<Vec<char>>)
    ensures
        r@.len() == lines_of(v@).len(),
        forall|i: int| 0 <= i < r@.len() ==> #[trigger] r@[i]@ == lines_of(v@)[i],
{
    if v.len() == 0 {
        let r: Vec<Vec<char>> = Vec::new();
        return r;
    }
    let mut done: Vec<Vec<char>> = Vec::new();
    let mut cur: Vec<char> = Vec::new();
    let ghost mut done_v: Seq<Seq<char>> = Seq::empty();
    let mut i: usize = 0;
    proof {
        assert(v@.take(0) =~= Seq::<char>::empty());
        assert(split_lines_spec(Seq::<char>::empty()) == seq![Seq::<char>::empty()]);
        assert(split_lines_spec(v@.take(0)) =~~= done_v.push(cur@));
    }
    while i < v.len()
        invariant
            i <= v.len(),
            done_v.len() == done@.len(),
            forall|m: int| 0 <= m < done_v.len() ==> #[trigger] done_v[m] == done@[m]@,
            split_lines_spec(v@.take(i as int)) == done_v.push(cur@),
        decreases v.len() - i,
    {
        proof {
            lemma_split_push(v@.take(i as int), v@[i as int]);
            assert(v@.take(i as int).push(v@[i as int]) =~= v@.take(i + 1));
        }
        let c = v[i];
        if c == '\n' {
            let ghost old_cur = cur@;
            done.push(cur);
            cur = Vec::new();
            proof {
                done_v = done_v.push(old_cur);
                assert(split_lines_spec(v@.take(i + 1)) =~~= done_v.push(cur@));
            }
        } else {
            let ghost old_views = done_v.push(cur@);
            cur.push(c);
            proof {
                assert(old_views.update(old_views.len() - 1, old_views.last().push(v@[i as int]))
                    =~~= done_v.push(cur@));
            }
        }
        i = i + 1;
    }
    proof {
        assert(v@.take(v@.len() as int) =~= v@);
        assert(split_lines_spec(v@) == done_v.push(cur@));
    }
    let ends_nl = v[v.len() - 1] == '\n';
    if ends_nl {
        proof {
            assert(done_v.push(cur@).drop_last() =~~= done_v);
        }
        done
    } else {
        let mut d = done;
        d.push(cur);
        proof {
            assert(lines_of(v@) =~= done_v.push(cur@));
        }
        d
    }
}

/// Cleans raw input for translation: trims each line and rejoins the lines
/// with newlines, so no line carries leading or trailing whitespace while
/// blank lines survive as paragraph breaks.
pub fn clean_text_for_translation(text: &str) -> (r: String)
    ensures
        r@ == normalized_text_spec(text@),
        text@.len() == 0 ==> r@ == Seq::<char>::empty(),
        text@.len() > 0 ==> split_lines_spec(r@) == lines_of(text@).map_values(
            |l: Seq<char>| trim_spec(l),
        ),
        text@.len() > 0 ==> split_lines_spec(r@).len() == lines_of(text@).len(),
        forall|k: int|
            0 <= k < split_lines_spec(r@).len() ==> line_is_trimmed(
                #[trigger] split_lines_spec(r@)[k],
            ),
{
    let cv = str_chars(text);
    if cv.len() == 0 {
        let r = String::new();
        proof {
            assert(line_is_trimmed(Seq::<char>::empty()));
            assert(lines_of(text@).map_values(|l: Seq<char>| trim_spec(l)) =~= Seq::<
                Seq<char>,
            >::empty());
        }
        return r;
    }
    // Cut the text into its lines; `done_v` mirrors the views of `done`.
    let mut done: Vec<Vec<char>> = Vec::new();
    let mut cur: Vec<char> = Vec::new();
    let ghost mut done_v: Seq<Seq<char>> = Seq::empty();
    let mut i: usize = 0;
    proof {
        assert(cv@.take(0) =~= Seq::<char>::empty());
        assert(split_lines_spec(Seq::<char>::empty()) == seq![Seq::<char>::empty()]);
        assert(split_lines_spec(cv@.take(0)) =~~= done_v.push(cur@));
    }
    while i < cv.len()
        invariant
            i <= cv.len(),
            done_v.len() == done@.len(),
            forall|m: int| 0 <= m < done_v.len() ==> #[trigger] done_v[m] == done@[m]@,
            split_lines_spec(cv@.take(i as int)) == done_v.push(cur@),
            forall|k: int, m: int|
                0 <= k < done_v.len() && 0 <= m < done_v[k].len() ==> #[trigger] done_v[k][m]
                    != '\n',
            forall|m: int| 0 <= m < cur@.len() ==> cur@[m] != '\n',
            i > 0 && cv@[i as int - 1] == '\n' ==> done_v.len() >= 1,
        decreases cv.len() - i,
    {
        proof {
            lemma_split_push(cv@.take(i as int), cv@[i as int]);
            assert(cv@.take(i as int).push(cv@[i as int]) =~= cv@.take(i + 1));
        }
        let c = cv[i];
        if c == '\n' {
            let ghost old_cur = cur@;
            done.push(cur);
            cur = Vec::new();
            proof {
                done_v = done_v.push(old_cur);
                assert(split_lines_spec(cv@.take(i + 1)) =~~= done_v.push(cur@));
            }
        } else {
            let ghost old_views = done_v.push(cur@);
            cur.push(c);
            proof {
                assert(old_views.update(old_views.len() - 1, old_views.last().push(cv@[i as int]))
                    =~~= done_v.push(cur@));
            }
        }
        i = i + 1;
    }
    proof {
        assert(cv@.take(cv@.len() as int) =~= cv@);
        assert(split_lines_spec(text@) == done_v.push(cur@));
    }
    // A trailing newline closes the last line rather than opening a new one.
    let ends_nl = cv[cv.len() - 1] == '\n';
    let ghost pieces_v: Seq<Seq<char>> = if ends_nl {
        done_v
    } else {
        done_v.push(cur@)
    };
    let pieces: Vec<Vec<char>> = if ends_nl {
        proof {
            assert(done_v.push(cur@).drop_last() =~~= done_v);
        }
        done
    } else {
        let mut d = done;
        d.push(cur);
        d
    };
    proof {
        assert(pieces_v == lines_of(text@));
        assert(pieces_v.len() >= 1);
        assert(pieces_v.len() == pieces@.len());
        assert(forall|m: int| 0 <= m < pieces_v.len() ==> #[trigger] pieces_v[m] == pieces@[m]@);
    }
    // Trim every line.
    let mut trimmed: Vec<Vec<char>> = Vec::new();
    let ghost mut trimmed_v: Seq<Seq<char>> = Seq::empty();
    let mut k: usize = 0;
    while k < pieces.len()
        invariant
            k <= pieces.len(),
            pieces_v.len() == pieces@.len(),
            forall|m: int| 0 <= m < pieces_v.len() ==> #[trigger] pieces_v[m] == pieces@[m]@,
            trimmed_v.len() == k,
            trimmed@.len() == k,
            forall|m: int| 0 <= m < k ==> #[trigger] trimmed_v[m] == trimmed@[m]@,
            forall|m: int| 0 <= m < k ==> #[trigger] trimmed_v[m] == trim_spec(pieces_v[m]),
        decreases pieces.len() - k,
    {
        let t = trim_chars(&pieces[k]);
        trimmed.push(t);
        proof {
            trimmed_v = trimmed_v.push(trim_spec(pieces_v[k as int]));
        }
        k = k + 1;
    }
    proof {
        assert(trimmed_v =~= lines_of(text@).map_values(|l: Seq<char>| trim_spec(l)));
        lemma_split_lines_no_newline(text@);
        assert forall|m: int, j: int|
            0 <= m < trimmed_v.len() && 0 <= j < trimmed_v[m].len() implies #[trigger] trimmed_v[m][j]
            != '\n' by {
            let c = trimmed_v[m][j];
            assert(trimmed_v[m].contains(c));
            lemma_trim_members(pieces_v[m], c);
            let w = choose|w: int| 0 <= w < pieces_v[m].len() && pieces_v[m][w] == c;
            assert(pieces_v[m] == split_lines_spec(text@)[m]);
            assert(split_lines_spec(text@)[m][w] != '\n');
        }
    }
    // Join the trimmed lines back with newlines.
    let mut out: Vec<char> = Vec::new();
    proof {
        assert(split_lines_spec(out@) =~~= seq![Seq::<char>::empty()]);
    }
    proof {
        assert(trimmed@[0]@ == trimmed_v[0]);
        assert forall|m: int| 0 <= m < trimmed@[0]@.len() implies trimmed@[0]@[m] != '\n' by {
            assert(trimmed_v[0][m] != '\n');
        }
    }
    append_piece(&mut out, &trimmed[0]);
    proof {
        assert(split_lines_spec(out@) =~~= trimmed_v.take(1));
        assert(out@ == trimmed_v[0]);
        assert(join_lines_spec(trimmed_v.take(1)) == trimmed_v.take(1)[0]);
    }
    let mut w: usize = 1;
    while w < trimmed.len()
        invariant
            1 <= w <= trimmed.len(),
            trimmed_v.len() == trimmed@.len(),
            forall|m: int| 0 <= m < trimmed_v.len() ==> #[trigger] trimmed_v[m] == trimmed@[m]@,
            forall|m: int, j: int|
                0 <= m < trimmed_v.len() && 0 <= j < trimmed_v[m].len()
                    ==> #[trigger] trimmed_v[m][j] != '\n',
            split_lines_spec(out@) == trimmed_v.take(w as int),
            out@ == join_lines_spec(trimmed_v.take(w as int)),
        decreases trimmed.len() - w,
    {
        proof {
            lemma_split_push(out@, '\n');
        }
        out.push('\n');
        let ghost mid = split_lines_spec(out@);
        proof {
            assert(trimmed@[w as int]@ == trimmed_v[w as int]);
            assert forall|m: int| 0 <= m < trimmed@[w as int]@.len() implies trimmed@[w as int]@[m]
                != '\n' by {
                assert(trimmed_v[w as int][m] != '\n');
            }
        }
        append_piece(&mut out, &trimmed[w]);
        proof {
            assert(mid =~~= trimmed_v.take(w as int).push(Seq::<char>::empty()));
            assert(mid.update(mid.len() - 1, mid.last() + trimmed_v[w as int]) =~~= trimmed_v.take(
                w + 1,
            ));
            lemma_join_push(trimmed_v.take(w as int), trimmed_v[w as int]);
            assert(trimmed_v.take(w as int).push(trimmed_v[w as int]) =~= trimmed_v.take(w + 1));
        }
        w = w + 1;
    }
    proof {
        assert(trimmed_v.take(trimmed_v.len() as int) =~= trimmed_v);
        assert(split_lines_spec(out@) == trimmed_v);
        assert(out@ == join_lines_spec(trimmed_v));
    }
    let r = chars_to_string(&out);
    proof {
        assert(r@ == out@);
        assert(r@ == normalized_text_spec(text@));
        assert forall|q: int| 0 <= q < split_lines_spec(r@).len() implies line_is_trimmed(
            #[trigger] split_lines_spec(r@)[q],
        ) by {
            lemma_trim_no_edge_space(pieces_v[q]);
        }
    }
    r
}

} // verus!
