use vstd::prelude::*;
use vstd::string::*;

verus! {

/// The base-58 text of a byte string.
pub uninterp spec fn b58_encode_of(bytes: Seq<u8>) -> Seq<char>;

/// The bytes that a base-58 text stands for, if it is one.
pub uninterp spec fn b58_decode_of(text: Seq<char>) -> Option<Seq<u8>>;

/// The characters of the base-58 alphabet.
pub open spec fn is_b58_char(c: char) -> bool {
    ('1' <= c <= '9') || ('A' <= c <= 'H') || ('J' <= c <= 'N') || ('P' <= c <= 'Z')
        || ('a' <= c <= 'k') || ('m' <= c <= 'z')
}

/// Relies on bs58's `encode(..).into_string()`: the base-58 text of the bytes, written in the
/// base-58 alphabet, empty exactly when there are no bytes, and decoding back to them.
#[verifier::external_body]
pub(crate) fn b58_encode(bytes: &[u8]) -> (r: String)
    ensures
        r@ == b58_encode_of(bytes@),
        forall|i: int| 0 <= i < r@.len() ==> is_b58_char(#[trigger] r@[i]),
        r@.len() == 0 <==> bytes@.len() == 0,
        b58_decode_of(r@) == Some(bytes@),
{
    bs58::encode(bytes).into_string()
}

/// Relies on bs58's `decode(..).into_vec()`: the bytes of a base-58 text, or an error.
#[verifier::external_body]
pub(crate) fn b58_decode(text: &str) -> (r: Option<Vec<u8>>)
    ensures
        match r {
            Some(v) => b58_decode_of(text@) == Some(v@),
            None => b58_decode_of(text@) is None,
        },
{
    match bs58::decode(text).into_vec() {
        Ok(v) => Some(v),
        Err(_) => None,
    }
}

/// Unicode white space, as `char::is_whitespace` defines it.
pub open spec fn is_ws(c: char) -> bool {
    ('\t' <= c <= '\r') || c == ' ' || c == '\u{85}' || c == '\u{A0}' || c == '\u{1680}'
        || ('\u{2000}' <= c <= '\u{200A}') || c == '\u{2028}' || c == '\u{2029}'
        || c == '\u{202F}' || c == '\u{205F}' || c == '\u{3000}'
}

/// The words of a text: its maximal runs of characters that are not white space, in order.
pub open spec fn words(s: Seq<char>) -> Seq<Seq<char>>
    decreases s.len(),
{
    if s.len() == 0 {
        Seq::empty()
    } else {
        let p = s.drop_last();
        let c = s.last();
        if is_ws(c) {
            words(p)
        } else if p.len() > 0 && !is_ws(p.last()) {
            let w = words(p);
            w.update(w.len() - 1, w.last().push(c))
        } else {
            words(p).push(seq![c])
        }
    }
}

/// The words joined with single spaces.
pub open spec fn join(ws: Seq<Seq<char>>) -> Seq<char>
    decreases ws.len(),
{
    if ws.len() == 0 {
        Seq::empty()
    } else if ws.len() == 1 {
        ws[0]
    } else {
        ws[0] + seq![' '] + join(ws.subrange(1, ws.len() as int))
    }
}

/// The texts of a vector of strings.
pub open spec fn texts(v: Seq<String>) -> Seq<Seq<char>> {
    v.map_values(|w: String| w@)
}

/// Relies on `str::split_whitespace`: the words of the text, each copied out.
#[verifier::external_body]
pub(crate) fn split_words(s: &str) -> (r: Vec<String>)
    ensures
        texts(r@) == words(s@),
{
    s.split_whitespace().map(|w| w.to_string()).collect()
}

/// `a` followed by one space and `b`.
pub fn space_join(a: String, b: &str) -> (r: String)
    ensures
        r@ == a@ + seq![' '] + b@,
{
    proof {
        reveal_strlit(" ");
    }
    let r = a.concat(" ");
    r.concat(b)
}

/// The words from position `from` on, joined with single spaces.
pub fn join_from(ws: &Vec<String>, from: usize) -> (r: String)
    requires
        from <= ws@.len(),
    ensures
        r@ == join(texts(ws@).subrange(from as int, ws@.len() as int)),
    decreases ws@.len() - from,
{
    if from == ws.len() {
        proof {
            assert(texts(ws@).subrange(from as int, ws@.len() as int) =~= Seq::<Seq<char>>::empty());
        }
        String::new()
    } else if from + 1 == ws.len() {
        proof {
            assert(texts(ws@).subrange(from as int, ws@.len() as int) =~= seq![ws@[from as int]@]);
        }
        ws[from].clone()
    } else {
        let rest = join_from(ws, from + 1);
        let head = ws[from].clone();
        proof {
            let t = texts(ws@).subrange(from as int, ws@.len() as int);
            assert(t.subrange(1, t.len() as int) =~= texts(ws@).subrange(from + 1, ws@.len() as int));
        }
        space_join(head, rest.as_str())
    }
}

/// Whether two texts are the same.
pub fn text_equal(a: &str, b: &str) -> (r: bool)
    ensures
        r == (a@ == b@),
{
    let n = a.unicode_len();
    if n != b.unicode_len() {
        return false;
    }
    let mut i: usize = 0;
    while i < n
        invariant
            n == a@.len(),
            n == b@.len(),
            0 <= i <= n,
            a@.subrange(0, i as int) == b@.subrange(0, i as int),
        decreases n - i,
    {
        if a.get_char(i) != b.get_char(i) {
            assert(a@ != b@) by {
                if a@ == b@ {
                    assert(a@[i as int] == b@[i as int]);
                }
            }
            return false;
        }
        assert(a@.subrange(0, i as int + 1) =~= a@.subrange(0, i as int).push(a@[i as int]));
        assert(b@.subrange(0, i as int + 1) =~= b@.subrange(0, i as int).push(b@[i as int]));
        i = i + 1;
    }
    assert(a@ =~= a@.subrange(0, n as int));
    assert(b@ =~= b@.subrange(0, n as int));
    true
}

/// A word: not empty, and without white space.
pub open spec fn is_word(w: Seq<char>) -> bool {
    w.len() > 0 && forall|i: int| 0 <= i < w.len() ==> !is_ws(#[trigger] w[i])
}

/// Every word of a text is a word: not empty, without white space.
pub proof fn lemma_words_are_words(s: Seq<char>)
    ensures
        forall|i: int| 0 <= i < words(s).len() ==> is_word(#[trigger] words(s)[i]),
    decreases s.len(),
{
    if s.len() > 0 {
        let p = s.drop_last();
        lemma_words_are_words(p);
        let c = s.last();
        if !is_ws(c) && p.len() > 0 && !is_ws(p.last()) {
            lemma_words_nonempty(p);
            let w = words(p);
            assert forall|i: int| 0 <= i < words(s).len() implies is_word(#[trigger] words(s)[i]) by {
                if i == w.len() - 1 {
                    assert(is_word(w[i]));
                    let x = w[i].push(c);
                    assert forall|j: int| 0 <= j < x.len() implies !is_ws(#[trigger] x[j]) by {
                        if j < w[i].len() {
                            assert(x[j] == w[i][j]);
                        }
                    }
                }
            }
        } else if !is_ws(c) {
            let w = words(p);
            assert forall|i: int| 0 <= i < words(s).len() implies is_word(#[trigger] words(s)[i]) by {
                if i < w.len() {
                    assert(words(s)[i] == w[i]);
                }
            }
        }
    }
}

/// A text that ends in a character other than white space has a word.
pub proof fn lemma_words_nonempty(s: Seq<char>)
    requires
        s.len() > 0,
        !is_ws(s.last()),
    ensures
        words(s).len() > 0,
    decreases s.len(),
{
    let p = s.drop_last();
    if p.len() > 0 && !is_ws(p.last()) {
        lemma_words_nonempty(p);
    }
}

/// A word is the only word of itself.
pub proof fn lemma_words_single(t: Seq<char>)
    requires
        is_word(t),
    ensures
        words(t) == seq![t],
    decreases t.len(),
{
    let p = t.drop_last();
    if p.len() > 0 {
        assert(is_word(p)) by {
            assert forall|i: int| 0 <= i < p.len() implies !is_ws(#[trigger] p[i]) by {
                assert(p[i] == t[i]);
            }
        }
        lemma_words_single(p);
        assert(!is_ws(p.last())) by {
            assert(p.last() == t[t.len() - 2]);
        }
        assert(p.push(t.last()) =~= t);
        assert(words(t) =~= seq![t]);
    } else {
        assert(words(p) =~= Seq::<Seq<char>>::empty());
        assert(seq![t.last()] =~= t);
        assert(words(t) =~= seq![t]);
    }
}

/// A space splits a text's words: those before it, then those after it.
pub proof fn lemma_words_split(a: Seq<char>, b: Seq<char>)
    ensures
        words(a + seq![' '] + b) == words(a) + words(b),
    decreases b.len(),
{
    let s = a + seq![' '] + b;
    if b.len() == 0 {
        assert(s.drop_last() =~= a);
        assert(words(b) =~= Seq::<Seq<char>>::empty());
        assert(words(a) + words(b) =~= words(a));
    } else {
        let bp = b.drop_last();
        let c = b.last();
        let p = a + seq![' '] + bp;
        assert(s.drop_last() =~= p);
        assert(s.last() == c);
        lemma_words_split(a, bp);
        assert(p.last() == if bp.len() > 0 { bp.last() } else { ' ' });
        if is_ws(c) {
        } else if bp.len() > 0 && !is_ws(bp.last()) {
            lemma_words_nonempty(bp);
            let wb = words(bp);
            let w = words(a) + wb;
            assert(w.update(w.len() - 1, w.last().push(c)) =~= words(a) + wb.update(
                wb.len() - 1,
                wb.last().push(c),
            ));
        } else {
            assert((words(a) + words(bp)).push(seq![c]) =~= words(a) + words(bp).push(seq![c]));
        }
    }
}

/// Joining words with single spaces and splitting the result gives the words back.
pub proof fn lemma_words_join(ws: Seq<Seq<char>>)
    requires
        forall|i: int| 0 <= i < ws.len() ==> is_word(#[trigger] ws[i]),
    ensures
        words(join(ws)) == ws,
    decreases ws.len(),
{
    if ws.len() == 0 {
        assert(words(join(ws)) =~= ws);
    } else if ws.len() == 1 {
        lemma_words_single(ws[0]);
        assert(seq![ws[0]] =~= ws);
    } else {
        let rest = ws.subrange(1, ws.len() as int);
        assert forall|i: int| 0 <= i < rest.len() implies is_word(#[trigger] rest[i]) by {
            assert(rest[i] == ws[i + 1]);
        }
        lemma_words_join(rest);
        lemma_words_single(ws[0]);
        lemma_words_split(ws[0], join(rest));
        assert(seq![ws[0]] + rest =~= ws);
    }
}

/// Text in the base-58 alphabet has no white space.
pub proof fn lemma_b58_word(t: Seq<char>)
    requires
        t.len() > 0,
        forall|i: int| 0 <= i < t.len() ==> is_b58_char(#[trigger] t[i]),
    ensures
        is_word(t),
{
    assert forall|i: int| 0 <= i < t.len() implies !is_ws(#[trigger] t[i]) by {
        assert(is_b58_char(t[i]));
    }
}

} // verus!
