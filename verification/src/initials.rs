use vstd::prelude::*;

verus! {

/// The first character of every space-separated word of `s`, in order,
/// starting mid-scan: `boundary` says whether the character before `s` (if
/// any) was a space, i.e. whether a non-space character at the front of `s`
/// starts a new word. Runs of spaces produce empty tokens, which contribute
/// nothing.
pub open spec fn word_initials_from(s: Seq<char>, boundary: bool) -> Seq<char>
    decreases s.len(),
{
    if s.len() == 0 {
        Seq::empty()
    } else if s[0] == ' ' {
        word_initials_from(s.drop_first(), true)
    } else if boundary {
        seq![s[0]] + word_initials_from(s.drop_first(), false)
    } else {
        word_initials_from(s.drop_first(), false)
    }
}

/// The first character of every space-separated word of `s`, in order.
pub open spec fn word_initials(s: Seq<char>) -> Seq<char> {
    word_initials_from(s, true)
}

/// The initials derived from the display name `s`: the first character of
/// the first word and, when the name has more than one word, the first
/// character of the last word. A name without any word (empty, or spaces
/// only) yields no characters.
pub open spec fn initials_of(s: Seq<char>) -> Seq<char> {
    let w = word_initials(s);
    if w.len() == 0 {
        Seq::empty()
    } else if w.len() == 1 {
        seq![w[0]]
    } else {
        seq![w[0], w.last()]
    }
}

/// `s` split at every space: the words of the name, in order, empty tokens
/// included. Splitting the empty name gives one empty word, as splitting a
/// string on a separator does.
pub open spec fn words(s: Seq<char>) -> Seq<Seq<char>>
    decreases s.len(),
{
    if s.len() == 0 {
        seq![Seq::empty()]
    } else if s[0] == ' ' {
        seq![Seq::empty()] + words(s.drop_first())
    } else {
        let w = words(s.drop_first());
        w.update(0, seq![s[0]] + w[0])
    }
}

/// The first character of every nonempty entry of `ws`, in order.
pub open spec fn first_letters(ws: Seq<Seq<char>>) -> Seq<char>
    decreases ws.len(),
{
    if ws.len() == 0 {
        Seq::empty()
    } else if ws[0].len() == 0 {
        first_letters(ws.drop_first())
    } else {
        seq![ws[0][0]] + first_letters(ws.drop_first())
    }
}

/// Splitting a name gives at least one word.
pub proof fn lemma_words_nonempty(s: Seq<char>)
    ensures
        words(s).len() >= 1,
    decreases s.len(),
{
    if s.len() == 0 {
    } else {
        lemma_words_nonempty(s.drop_first());
    }
}

/// The one-pass scan behind `word_initials` agrees with splitting the name
/// at spaces: it collects the first character of every nonempty word. Mid
/// word (`boundary` false) the current word's first character was already
/// collected, so the scan of the rest skips the first word of its split.
pub proof fn lemma_scan_matches_split(s: Seq<char>)
    ensures
        word_initials_from(s, true) == first_letters(words(s)),
        word_initials_from(s, false) == first_letters(words(s).drop_first()),
    decreases s.len(),
{
    if s.len() == 0 {
        assert(words(s) =~= seq![Seq::<char>::empty()]);
        assert(words(s).drop_first() =~= Seq::<Seq<char>>::empty());
        assert(first_letters(Seq::<Seq<char>>::empty()) =~= Seq::<char>::empty());
        assert(first_letters(words(s)) == first_letters(words(s).drop_first()));
    } else {
        let rest = s.drop_first();
        lemma_scan_matches_split(rest);
        lemma_words_nonempty(rest);
        if s[0] == ' ' {
            assert(words(s) == seq![Seq::<char>::empty()] + words(rest));
            assert(words(s)[0].len() == 0);
            assert(words(s).drop_first() =~= words(rest));
            assert(first_letters(words(s)) == first_letters(words(s).drop_first()));
        } else {
            let w = words(rest);
            let ws = words(s);
            assert(ws == w.update(0, seq![s[0]] + w[0]));
            assert(ws[0] == seq![s[0]] + w[0]);
            assert(ws[0].len() > 0);
            assert(ws[0][0] == s[0]);
            assert(ws.drop_first() =~= w.drop_first());
            assert(first_letters(ws) == seq![s[0]] + first_letters(ws.drop_first()));
            assert(word_initials_from(s, true) == seq![s[0]] + word_initials_from(rest, false));
        }
    }
}

/// Every entry of `ws` nonempty: `first_letters` then maps each word to its
/// first character, one for one.
proof fn lemma_first_letters_all_nonempty(ws: Seq<Seq<char>>)
    requires
        forall|i: int| 0 <= i < ws.len() ==> ws[i].len() > 0,
    ensures
        first_letters(ws).len() == ws.len(),
        forall|i: int| 0 <= i < ws.len() ==> first_letters(ws)[i] == ws[i][0],
    decreases ws.len(),
{
    if ws.len() == 0 {
    } else {
        let tail = ws.drop_first();
        assert forall|i: int| 0 <= i < tail.len() implies tail[i].len() > 0 by {
            assert(tail[i] == ws[i + 1]);
        }
        lemma_first_letters_all_nonempty(tail);
        assert(first_letters(ws) == seq![ws[0][0]] + first_letters(tail));
        assert forall|i: int| 0 <= i < ws.len() implies first_letters(ws)[i] == ws[i][0] by {
            if i > 0 {
                assert(first_letters(ws)[i] == first_letters(tail)[i - 1]);
                assert(tail[i - 1] == ws[i]);
            }
        }
    }
}

/// A name of two or more space-separated words, none of them empty, gets
/// exactly two initials: the first character of its first word followed by
/// the first character of its last word.
pub proof fn lemma_initials_multi_word(s: Seq<char>)
    requires
        words(s).len() >= 2,
        forall|i: int| 0 <= i < words(s).len() ==> words(s)[i].len() > 0,
    ensures
        initials_of(s).len() == 2,
        initials_of(s) == seq![words(s)[0][0], words(s).last()[0]],
{
    lemma_scan_matches_split(s);
    lemma_first_letters_all_nonempty(words(s));
    assert(initials_of(s) =~= seq![words(s)[0][0], words(s).last()[0]]);
}

/// A single-word name gets exactly one initial: the first character of that
/// word.
pub proof fn lemma_initials_single_word(s: Seq<char>)
    requires
        words(s).len() == 1,
        words(s)[0].len() > 0,
    ensures
        initials_of(s).len() == 1,
        initials_of(s) == seq![words(s)[0][0]],
{
    lemma_scan_matches_split(s);
    lemma_first_letters_all_nonempty(words(s));
    assert(initials_of(s) =~= seq![words(s)[0][0]]);
}

/// Wrapper around `String::push` of std: appends the one character `c` at
/// the end of the string.
#[verifier::external_body]
fn push_char(s: &mut String, c: char)
    ensures
        final(s)@ == old(s)@.push(c),
{
    s.push(c);
}

/// Extract the avatar initials from a display name, per `initials_of`: scan
/// the characters once, remembering the first character of the first and of
/// the latest word seen so far.
pub fn extract_initials(name: &str) -> (r: String)
    ensures
        r@ == initials_of(name@),
{
    let n: usize = name.unicode_len();
    let mut first: Option<char> = None;
    let mut last: Option<char> = None;
    let mut count: usize = 0;
    let mut boundary = true;
    let ghost mut acc: Seq<char> = Seq::empty();
    let mut i: usize = 0;
    proof {
        assert(name@.skip(0) =~= name@);
        assert(acc + word_initials_from(name@, true) =~= word_initials(name@));
    }
    while i < n
        invariant
            n == name@.len(),
            i <= n,
            count == acc.len(),
            count <= i,
            word_initials(name@) == acc + word_initials_from(name@.skip(i as int), boundary),
            count == 0 <==> first.is_none(),
            count == 0 <==> last.is_none(),
            count > 0 ==> first == Some(acc[0]) && last == Some(acc.last()),
        decreases n - i,
    {
        let c = name.get_char(i);
        proof {
            assert(name@.skip(i as int).len() == n - i);
            assert(name@.skip(i as int)[0] == name@[i as int]);
            assert(name@.skip(i as int).drop_first() =~= name@.skip(i as int + 1));
        }
        if c == ' ' {
            proof {
                assert(word_initials_from(name@.skip(i as int), boundary)
                    == word_initials_from(name@.skip(i as int + 1), true));
            }
            boundary = true;
        } else {
            if boundary {
                proof {
                    assert(word_initials_from(name@.skip(i as int), true)
                        == seq![c] + word_initials_from(name@.skip(i as int + 1), false));
                    assert(acc.push(c) =~= acc + seq![c]);
                    assert((acc + seq![c]) + word_initials_from(name@.skip(i as int + 1), false)
                        =~= acc + (seq![c] + word_initials_from(name@.skip(i as int + 1), false)));
                }
                if first.is_none() {
                    first = Some(c);
                }
                last = Some(c);
                count = count + 1;
                proof {
                    acc = acc.push(c);
                }
            } else {
                proof {
                    assert(word_initials_from(name@.skip(i as int), false)
                        == word_initials_from(name@.skip(i as int + 1), false));
                }
            }
            boundary = false;
        }
        i = i + 1;
    }
    proof {
        assert(name@.skip(n as int) =~= Seq::<char>::empty());
        assert(acc + word_initials_from(Seq::empty(), boundary) =~= acc);
        assert(word_initials(name@) == acc);
    }
    let mut out = String::new();
    match (first, last) {
        (Some(f), Some(l)) => {
            push_char(&mut out, f);
            if count >= 2 {
                push_char(&mut out, l);
                proof {
                    assert(out@ =~= initials_of(name@));
                }
            } else {
                proof {
                    assert(out@ =~= initials_of(name@));
                }
            }
        },
        _ => {
            proof {
                assert(out@ =~= initials_of(name@));
            }
        },
    }
    out
}

} // verus!
