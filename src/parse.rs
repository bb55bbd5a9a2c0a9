//! Splitting an input line into pipeline stages, and a stage into words.
use vstd::prelude::*;

verus! {

/// Whether `c` has the Unicode `White_Space` property.
pub open spec fn is_space(c: char) -> bool {
    ('\u{9}' <= c && c <= '\u{d}') || c == ' ' || c == '\u{85}' || c == '\u{a0}' || c
        == '\u{1680}' || ('\u{2000}' <= c && c <= '\u{200a}') || c == '\u{2028}' || c
        == '\u{2029}' || c == '\u{202f}' || c == '\u{205f}' || c == '\u{3000}'
}

/// The views of a sequence of strings.
pub open spec fn views(v: Seq<String>) -> Seq<Seq<char>> {
    v.map_values(|s: String| s@)
}

/// The pieces of `s` between bars, in order; `n` bars give `n + 1` pieces.
pub open spec fn split_bars(s: Seq<char>) -> Seq<Seq<char>>
    decreases s.len(),
{
    if s.len() == 0 {
        seq![Seq::<char>::empty()]
    } else {
        let prev = split_bars(s.drop_last());
        if s.last() == '|' {
            prev.push(Seq::<char>::empty())
        } else {
            prev.update(prev.len() - 1, prev.last().push(s.last()))
        }
    }
}

/// The maximal runs of non-space characters of `s`, in order.
pub open spec fn words(s: Seq<char>) -> Seq<Seq<char>>
    decreases s.len(),
{
    if s.len() == 0 {
        Seq::<Seq<char>>::empty()
    } else {
        let prev = words(s.drop_last());
        if is_space(s.last()) {
            prev
        } else if s.len() >= 2 && !is_space(s[s.len() - 2]) {
            prev.update(prev.len() - 1, prev.last().push(s.last()))
        } else {
            prev.push(seq![s.last()])
        }
    }
}

proof fn lemma_split_bars_nonempty(s: Seq<char>)
    ensures
        split_bars(s).len() >= 1,
    decreases s.len(),
{
    if s.len() > 0 {
        lemma_split_bars_nonempty(s.drop_last());
    }
}

/// Splitting on bars gives one more piece than there are bars.
pub proof fn lemma_split_bars_ends(s: Seq<char>)
    ensures
        split_bars(s).len() >= 1,
        s.len() > 0 && s.last() == '|' ==> split_bars(s).last() == Seq::<char>::empty(),
        s.len() > 0 && s[0] == '|' ==> split_bars(s)[0] == Seq::<char>::empty() && split_bars(
            s,
        ).len() >= 2,
    decreases s.len(),
{
    lemma_split_bars_nonempty(s);
    if s.len() > 0 {
        let t = s.drop_last();
        lemma_split_bars_ends(t);
        if s[0] == '|' && t.len() > 0 {
            assert(t[0] == s[0]);
        }
    }
}

/// Tells whether `c` separates the words of a command.
pub fn is_whitespace(c: char) -> (r: bool)
    ensures
        r == is_space(c),
{
    ('\u{9}' <= c && c <= '\u{d}') || c == ' ' || c == '\u{85}' || c == '\u{a0}' || c
        == '\u{1680}' || ('\u{2000}' <= c && c <= '\u{200a}') || c == '\u{2028}' || c
        == '\u{2029}' || c == '\u{202f}' || c == '\u{205f}' || c == '\u{3000}'
}

/// Splits `line` at every bar, keeping empty pieces.
pub fn split_stages(line: &str) -> (r: Vec<String>)
    ensures
        views(r@) == split_bars(line@),
{
    let n = line.unicode_len();
    let mut done: Vec<String> = Vec::new();
    let mut start: usize = 0;
    let mut i: usize = 0;
    proof {
        assert(line@.take(0) =~= Seq::<char>::empty());
        assert(views(done@).push(line@.subrange(0, 0)) =~= split_bars(line@.take(0)));
    }
    while i < n
        invariant
            n == line@.len(),
            start <= i <= n,
            views(done@).push(line@.subrange(start as int, i as int)) == split_bars(
                line@.take(i as int),
            ),
        decreases n - i,
    {
        let c = line.get_char(i);
        let ghost t = line@.take(i + 1);
        proof {
            assert(t.drop_last() =~= line@.take(i as int));
            assert(t.last() == c);
        }
        if c == '|' {
            let piece = line.substring_char(start, i);
            let ghost before = views(done@);
            let ghost prev = split_bars(line@.take(i as int));
            done.push(String::from_str(piece));
            start = i + 1;
            proof {
                assert(views(done@) =~= before.push(piece@));
                assert(line@.subrange(start as int, i + 1) =~= Seq::<char>::empty());
                assert(prev == before.push(piece@));
                assert(split_bars(t) == prev.push(Seq::<char>::empty()));
                assert(views(done@).push(line@.subrange(start as int, i + 1)) =~= split_bars(t));
            }
        } else {
            proof {
                let prev = split_bars(line@.take(i as int));
                assert(line@.subrange(start as int, i + 1) =~= line@.subrange(
                    start as int,
                    i as int,
                ).push(c));
                assert(views(done@).push(line@.subrange(start as int, i + 1)) =~= prev.update(
                    prev.len() - 1,
                    prev.last().push(c),
                ));
            }
        }
        i = i + 1;
    }
    let piece = line.substring_char(start, n);
    let ghost before = views(done@);
    done.push(String::from_str(piece));
    proof {
        assert(views(done@) =~= before.push(piece@));
        assert(line@.take(n as int) =~= line@);
    }
    done
}

/// Splits `stage` into its words: the runs of characters between whitespace.
pub fn split_words(stage: &str) -> (r: Vec<String>)
    ensures
        views(r@) == words(stage@),
{
    let n = stage.unicode_len();
    let mut done: Vec<String> = Vec::new();
    let mut in_word = false;
    let mut start: usize = 0;
    let mut i: usize = 0;
    proof {
        assert(stage@.take(0) =~= Seq::<char>::empty());
        assert(views(done@) =~= Seq::<Seq<char>>::empty());
    }
    while i < n
        invariant
            n == stage@.len(),
            start <= i <= n,
            in_word ==> start < i && !is_space(stage@[i - 1]) && views(done@).push(
                stage@.subrange(start as int, i as int),
            ) == words(stage@.take(i as int)),
            !in_word ==> (i == 0 || is_space(stage@[i - 1])) && views(done@) == words(
                stage@.take(i as int),
            ),
        decreases n - i,
    {
        let c = stage.get_char(i);
        let ghost t = stage@.take(i + 1);
        let ghost before = views(done@);
        proof {
            assert(t.drop_last() =~= stage@.take(i as int));
            assert(t.last() == c);
            if i > 0 {
                assert(t[t.len() - 2] == stage@[i - 1]);
            }
        }
        if is_whitespace(c) {
            if in_word {
                let piece = stage.substring_char(start, i);
                done.push(String::from_str(piece));
                in_word = false;
                proof {
                    assert(views(done@) =~= before.push(piece@));
                }
            }
        } else {
            if !in_word {
                start = i;
                in_word = true;
                proof {
                    assert(stage@.subrange(start as int, i + 1) =~= seq![c]);
                }
            } else {
                proof {
                    let prev = words(stage@.take(i as int));
                    assert(stage@.subrange(start as int, i + 1) =~= stage@.subrange(
                        start as int,
                        i as int,
                    ).push(c));
                    assert(before.push(stage@.subrange(start as int, i + 1)) =~= prev.update(
                        prev.len() - 1,
                        prev.last().push(c),
                    ));
                }
            }
        }
        i = i + 1;
    }
    proof {
        assert(stage@.take(n as int) =~= stage@);
    }
    if in_word {
        let piece = stage.substring_char(start, n);
        let ghost before = views(done@);
        done.push(String::from_str(piece));
        proof {
            assert(views(done@) =~= before.push(piece@));
        }
    }
    done
}

} // verus!
