use vstd::prelude::*;
use crate::text::char_vec;
use crate::text::push_char;

verus! {

/// The words of `s[i..]`, given a partially accumulated word `cur` and the
/// current quoting state. A double quote flushes the accumulated word (when
/// non-empty) and toggles quoting; a space outside quotes flushes likewise;
/// every other character, and a space inside quotes, extends the word.
pub open spec fn tokenize_from(
    s: Seq<char>,
    i: int,
    cur: Seq<char>,
    quoted: bool,
) -> Seq<Seq<char>>
    decreases s.len() - i,
{
    if i < 0 || i >= s.len() {
        if cur.len() > 0 {
            seq![cur]
        } else {
            Seq::empty()
        }
    } else if s[i] == '"' {
        if cur.len() > 0 {
            seq![cur] + tokenize_from(s, i + 1, Seq::empty(), !quoted)
        } else {
            tokenize_from(s, i + 1, Seq::empty(), !quoted)
        }
    } else if s[i] == ' ' && !quoted {
        if cur.len() > 0 {
            seq![cur] + tokenize_from(s, i + 1, Seq::empty(), false)
        } else {
            tokenize_from(s, i + 1, Seq::empty(), false)
        }
    } else {
        tokenize_from(s, i + 1, cur.push(s[i]), quoted)
    }
}

/// The words of a whole line, quoting honored, quote characters dropped.
pub open spec fn tokenize(s: Seq<char>) -> Seq<Seq<char>> {
    tokenize_from(s, 0, Seq::empty(), false)
}

/// Split one line into words, treating a double quote as a toggle for a
/// quoted mode in which spaces are part of the word. Quote characters are
/// never part of any word; an unterminated quote is accepted silently.
#[verifier::loop_isolation(false)]
pub fn split_whitespace_quotes(line: &str) -> (r: Vec<String>)
    ensures
        r.deep_view() == tokenize(line@),
{
    let chars = char_vec(line);
    let n = chars.len();
    let mut split: Vec<String> = Vec::new();
    let mut current = String::new();
    let mut quoted = false;
    proof {
        assert(split.deep_view() + tokenize(line@) =~= tokenize(line@));
    }
    for i in 0..n
        invariant
            n == chars@.len(),
            chars@ == line@,
            tokenize(line@) == split.deep_view() + tokenize_from(
                line@,
                i as int,
                current@,
                quoted,
            ),
    {
        let ghost ii = i as int;
        let ghost prev = split.deep_view();
        let ghost curv = current@;
        let ghost qv = quoted;
        let ch = chars[i];
        if ch == '"' {
            if !current.as_str().is_empty() {
                split.push(current);
                current = String::new();
            }
            quoted = !quoted;
            proof {
                let rest = tokenize_from(line@, ii + 1, Seq::empty(), !qv);
                if curv.len() > 0 {
                    assert(tokenize_from(line@, ii, curv, qv) == seq![curv] + rest);
                    assert(split.deep_view() =~= prev + seq![curv]);
                    assert((prev + seq![curv]) + rest =~= prev + (seq![curv] + rest));
                } else {
                    assert(curv =~= Seq::<char>::empty());
                    assert(tokenize_from(line@, ii, curv, qv) == rest);
                }
                assert(tokenize(line@) == split.deep_view() + tokenize_from(
                    line@,
                    ii + 1,
                    current@,
                    quoted,
                ));
            }
        } else if ch == ' ' && !quoted {
            if !current.as_str().is_empty() {
                split.push(current);
                current = String::new();
            }
            proof {
                let rest = tokenize_from(line@, ii + 1, Seq::empty(), false);
                if curv.len() > 0 {
                    assert(tokenize_from(line@, ii, curv, qv) == seq![curv] + rest);
                    assert(split.deep_view() =~= prev + seq![curv]);
                    assert((prev + seq![curv]) + rest =~= prev + (seq![curv] + rest));
                } else {
                    assert(curv =~= Seq::<char>::empty());
                    assert(tokenize_from(line@, ii, curv, qv) == rest);
                }
                assert(tokenize(line@) == split.deep_view() + tokenize_from(
                    line@,
                    ii + 1,
                    current@,
                    quoted,
                ));
            }
        } else {
            push_char(&mut current, ch);
            proof {
                assert(tokenize_from(line@, ii, curv, qv) == tokenize_from(
                    line@,
                    ii + 1,
                    curv.push(ch),
                    qv,
                ));
                assert(tokenize(line@) == split.deep_view() + tokenize_from(
                    line@,
                    ii + 1,
                    current@,
                    quoted,
                ));
            }
        }
    }
    if !current.as_str().is_empty() {
        let ghost prev = split.deep_view();
        let ghost curv = current@;
        split.push(current);
        proof {
            assert(split.deep_view() =~= prev + seq![curv]);
        }
    } else {
        proof {
            assert(split.deep_view() + Seq::<Seq<char>>::empty() =~= split.deep_view());
        }
    }
    split
}

/// Every word the tokenizer yields is non-empty: consecutive separators
/// produce no empty words.
pub proof fn lemma_tokenize_no_empty_words(s: Seq<char>)
    ensures
        forall|k: int| 0 <= k < tokenize(s).len() ==> tokenize(s)[k].len() > 0,
{
    lemma_tokenize_from_no_empty_words(s, 0, Seq::empty(), false);
}

proof fn lemma_tokenize_from_no_empty_words(s: Seq<char>, i: int, cur: Seq<char>, quoted: bool)
    ensures
        forall|k: int|
            0 <= k < tokenize_from(s, i, cur, quoted).len()
                ==> #[trigger] tokenize_from(s, i, cur, quoted)[k].len() > 0,
    decreases s.len() - i,
{
    if i < 0 || i >= s.len() {
    } else if s[i] == '"' {
        lemma_tokenize_from_no_empty_words(s, i + 1, Seq::empty(), !quoted);
        let rest = tokenize_from(s, i + 1, Seq::empty(), !quoted);
        if cur.len() > 0 {
            assert forall|k: int|
                0 <= k < tokenize_from(s, i, cur, quoted).len() implies #[trigger] tokenize_from(
                s,
                i,
                cur,
                quoted,
            )[k].len() > 0 by {
                if k > 0 {
                    assert(tokenize_from(s, i, cur, quoted)[k] == rest[k - 1]);
                }
            }
        } else {
            assert(tokenize_from(s, i, cur, quoted) == rest);
            assert forall|k: int|
                0 <= k < tokenize_from(s, i, cur, quoted).len() implies #[trigger] tokenize_from(
                s,
                i,
                cur,
                quoted,
            )[k].len() > 0 by {
                assert(tokenize_from(s, i, cur, quoted)[k] == rest[k]);
            }
        }
    } else if s[i] == ' ' && !quoted {
        lemma_tokenize_from_no_empty_words(s, i + 1, Seq::empty(), false);
        let rest = tokenize_from(s, i + 1, Seq::empty(), false);
        if cur.len() > 0 {
            assert forall|k: int|
                0 <= k < tokenize_from(s, i, cur, quoted).len() implies #[trigger] tokenize_from(
                s,
                i,
                cur,
                quoted,
            )[k].len() > 0 by {
                if k > 0 {
                    assert(tokenize_from(s, i, cur, quoted)[k] == rest[k - 1]);
                }
            }
        } else {
            assert(tokenize_from(s, i, cur, quoted) == rest);
            assert forall|k: int|
                0 <= k < tokenize_from(s, i, cur, quoted).len() implies #[trigger] tokenize_from(
                s,
                i,
                cur,
                quoted,
            )[k].len() > 0 by {
                assert(tokenize_from(s, i, cur, quoted)[k] == rest[k]);
            }
        }
    } else {
        lemma_tokenize_from_no_empty_words(s, i + 1, cur.push(s[i]), quoted);
        let rest = tokenize_from(s, i + 1, cur.push(s[i]), quoted);
        assert(tokenize_from(s, i, cur, quoted) == rest);
        assert forall|k: int|
            0 <= k < tokenize_from(s, i, cur, quoted).len() implies #[trigger] tokenize_from(
            s,
            i,
            cur,
            quoted,
        )[k].len() > 0 by {
            assert(tokenize_from(s, i, cur, quoted)[k] == rest[k]);
        }
    }
}

/// The words of `s[i..]` split on spaces alone, `cur` partially accumulated:
/// how an alias phrase is divided into its words.
pub open spec fn words_from(s: Seq<char>, i: int, cur: Seq<char>) -> Seq<Seq<char>>
    decreases s.len() - i,
{
    if i < 0 || i >= s.len() {
        if cur.len() > 0 {
            seq![cur]
        } else {
            Seq::empty()
        }
    } else if s[i] == ' ' {
        if cur.len() > 0 {
            seq![cur] + words_from(s, i + 1, Seq::empty())
        } else {
            words_from(s, i + 1, Seq::empty())
        }
    } else {
        words_from(s, i + 1, cur.push(s[i]))
    }
}

/// The space-separated words of a string, with no empty words.
pub open spec fn space_words(s: Seq<char>) -> Seq<Seq<char>> {
    words_from(s, 0, Seq::empty())
}

/// Split a string into its space-separated words.
#[verifier::loop_isolation(false)]
pub fn split_spaces(s: &str) -> (r: Vec<String>)
    ensures
        r.deep_view() == space_words(s@),
{
    let chars = char_vec(s);
    let n = chars.len();
    let mut split: Vec<String> = Vec::new();
    let mut current = String::new();
    proof {
        assert(split.deep_view() + space_words(s@) =~= space_words(s@));
    }
    for i in 0..n
        invariant
            n == chars@.len(),
            chars@ == s@,
            space_words(s@) == split.deep_view() + words_from(s@, i as int, current@),
    {
        let ghost ii = i as int;
        let ghost prev = split.deep_view();
        let ghost curv = current@;
        let ch = chars[i];
        if ch == ' ' {
            if !current.as_str().is_empty() {
                split.push(current);
                current = String::new();
            }
            proof {
                let rest = words_from(s@, ii + 1, Seq::empty());
                if curv.len() > 0 {
                    assert(words_from(s@, ii, curv) == seq![curv] + rest);
                    assert(split.deep_view() =~= prev + seq![curv]);
                    assert((prev + seq![curv]) + rest =~= prev + (seq![curv] + rest));
                } else {
                    assert(curv =~= Seq::<char>::empty());
                    assert(words_from(s@, ii, curv) == rest);
                }
                assert(space_words(s@) == split.deep_view() + words_from(s@, ii + 1, current@));
            }
        } else {
            push_char(&mut current, ch);
            proof {
                assert(words_from(s@, ii, curv) == words_from(s@, ii + 1, curv.push(ch)));
                assert(space_words(s@) == split.deep_view() + words_from(s@, ii + 1, current@));
            }
        }
    }
    if !current.as_str().is_empty() {
        let ghost prev = split.deep_view();
        let ghost curv = current@;
        split.push(current);
        proof {
            assert(split.deep_view() =~= prev + seq![curv]);
        }
    } else {
        proof {
            assert(split.deep_view() + Seq::<Seq<char>>::empty() =~= split.deep_view());
        }
    }
    split
}

/// The words joined back into one string with a single space between
/// neighbours.
pub open spec fn join_spaces(ws: Seq<Seq<char>>) -> Seq<char>
    decreases ws.len(),
{
    if ws.len() == 0 {
        Seq::empty()
    } else if ws.len() == 1 {
        ws[0]
    } else {
        ws[0] + seq![' '] + join_spaces(ws.drop_first())
    }
}

/// Joining after appending one more word appends a separator and the word.
proof fn lemma_join_spaces_push(ws: Seq<Seq<char>>, w: Seq<char>)
    ensures
        ws.len() == 0 ==> join_spaces(ws.push(w)) == w,
        ws.len() > 0 ==> join_spaces(ws.push(w)) == join_spaces(ws) + seq![' '] + w,
    decreases ws.len(),
{
    if ws.len() == 0 {
        assert(ws.push(w) =~= seq![w]);
        assert(join_spaces(seq![w]) == w);
    } else if ws.len() == 1 {
        let p = ws.push(w);
        assert(p.len() == 2);
        assert(p[0] == ws[0]);
        assert(p.drop_first() =~= seq![w]);
        assert(join_spaces(p) == p[0] + seq![' '] + join_spaces(p.drop_first()));
        assert(join_spaces(seq![w]) == seq![w][0]);
        assert(seq![w][0] == w);
        assert(join_spaces(ws) == ws[0]);
    } else {
        lemma_join_spaces_push(ws.drop_first(), w);
        assert(ws.push(w).drop_first() =~= ws.drop_first().push(w));
        assert(join_spaces(ws.push(w)) == ws[0] + seq![' '] + join_spaces(
            ws.drop_first().push(w),
        ));
        assert(ws[0] + seq![' '] + (join_spaces(ws.drop_first()) + seq![' '] + w) =~= (ws[0]
            + seq![' '] + join_spaces(ws.drop_first())) + seq![' '] + w);
    }
}

/// Join the words from position `from` on with single spaces, as the
/// built-ins rebuild an argument phrase.
#[verifier::loop_isolation(false)]
pub fn join_words(words: &Vec<String>, from: usize) -> (r: String)
    requires
        from <= words@.len(),
    ensures
        r@ == join_spaces(words.deep_view().skip(from as int)),
{
    let ghost all = words.deep_view();
    let n = words.len();
    let mut out = String::new();
    if from >= n {
        proof {
            assert(all.skip(from as int) =~= Seq::<Seq<char>>::empty());
        }
        return out;
    }
    out.append(words[from].as_str());
    proof {
        assert(all.subrange(from as int, from as int + 1) =~= seq![all[from as int]]);
        assert(Seq::<char>::empty() + all[from as int] =~= all[from as int]);
        assert(out@ == join_spaces(all.subrange(from as int, from as int + 1)));
    }
    let mut i = from + 1;
    while i < n
        invariant
            from < i <= n,
            n == words@.len(),
            all == words.deep_view(),
            out@ == join_spaces(all.subrange(from as int, i as int)),
        decreases n - i,
    {
        let ghost sub = all.subrange(from as int, i as int);
        push_char(&mut out, ' ');
        out.append(words[i].as_str());
        proof {
            lemma_join_spaces_push(sub, all[i as int]);
            assert(sub.push(all[i as int]) =~= all.subrange(from as int, i as int + 1));
            assert(join_spaces(sub) + seq![' '] + all[i as int] =~= out@);
        }
        i = i + 1;
    }
    proof {
        assert(all.subrange(from as int, n as int) =~= all.skip(from as int));
    }
    out
}

} // verus!
