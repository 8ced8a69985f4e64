use vstd::prelude::*;
use vstd::utf8::{decode_utf8, decode_utf8_encode_utf8, encode_scalar, encode_utf8, valid_utf8};

verus! {

/// The text that `String::from_utf8_lossy` makes of `bytes`.
pub uninterp spec fn lossy_utf8(bytes: Seq<u8>) -> Seq<char>;

/// Calls `String::from_utf8_lossy`. Its result depends on the bytes alone and is named
/// `lossy_utf8`; std documents that valid UTF-8 is decoded as it stands (invalid
/// sequences become U+FFFD, which the contract leaves unsaid).
#[verifier::external_body]
fn decode_lossy(bytes: &[u8]) -> (text: String)
    ensures
        text@ == lossy_utf8(bytes@),
        valid_utf8(bytes@) ==> text@ == decode_utf8(bytes@),
{
    String::from_utf8_lossy(bytes).into_owned()
}

/// Calls `String::push`, which std documents as appending `c` to the end of `text`.
#[verifier::external_body]
fn push_char(text: &mut String, c: char)
    ensures
        final(text)@ == old(text)@.push(c),
{
    text.push(c)
}

/// `text` with every occurrence of `pattern` replaced by `replacement`, as
/// `str::replace` does: occurrences are taken from the left and do not overlap, and an
/// empty pattern occurs before each character and at the end.
pub open spec fn replace_all(text: Seq<char>, pattern: Seq<char>, replacement: Seq<char>) -> Seq<
    char,
>
    decreases text.len(),
{
    if pattern.len() == 0 {
        if text.len() == 0 {
            replacement
        } else {
            replacement + seq![text[0]] + replace_all(text.drop_first(), pattern, replacement)
        }
    } else if text.len() == 0 {
        text
    } else if 0 < pattern.len() <= text.len() && text.take(pattern.len() as int) == pattern {
        replacement + replace_all(text.skip(pattern.len() as int), pattern, replacement)
    } else {
        seq![text[0]] + replace_all(text.drop_first(), pattern, replacement)
    }
}

/// `pattern` occurs in `text` at position `at`.
pub open spec fn occurs_at(text: Seq<char>, pattern: Seq<char>, at: int) -> bool {
    0 <= at && at + pattern.len() <= text.len() && text.subrange(at, at + pattern.len())
        == pattern
}

/// The characters of `text`, one by one.
fn chars_of(text: &str) -> (chars: Vec<char>)
    ensures
        chars@ == text@,
{
    let mut chars: Vec<char> = Vec::new();
    for c in it: text.chars()
        invariant
            chars@ == it.seq().take(it.index() as int),
            it.seq() == text@,
    {
        chars.push(c);
    }
    chars
}

/// Whether `pattern` occurs in `text` at position `at`.
fn occurs_at_exec(text: &Vec<char>, pattern: &Vec<char>, at: usize) -> (found: bool)
    ensures
        found == occurs_at(text@, pattern@, at as int),
{
    if pattern.len() > text.len() || at > text.len() - pattern.len() {
        return false;
    }
    let mut k: usize = 0;
    while k < pattern.len()
        invariant
            at + pattern.len() <= text.len(),
            0 <= k <= pattern.len(),
            forall|j: int| 0 <= j < k ==> text@[at + j] == pattern@[j],
        decreases pattern.len() - k,
    {
        if text[at + k] != pattern[k] {
            assert(text@.subrange(at as int, at + pattern.len())[k as int] != pattern@[k as int]);
            return false;
        }
        k = k + 1;
    }
    assert(text@.subrange(at as int, at + pattern.len()) =~= pattern@);
    true
}

/// `text` with every occurrence of `pattern` replaced by `replacement`.
pub fn replace(text: &str, pattern: &str, replacement: &str) -> (replaced: String)
    ensures
        replaced@ == replace_all(text@, pattern@, replacement@),
{
    let chars = chars_of(text);
    let pattern_chars = chars_of(pattern);
    let mut replaced = String::new();
    let mut i: usize = 0;
    if pattern_chars.len() == 0 {
        assert(chars@.skip(0) =~= text@);
        assert(replaced@ + replace_all(text@, pattern@, replacement@) =~= replace_all(
            text@,
            pattern@,
            replacement@,
        ));
        while i < chars.len()
            invariant
                0 <= i <= chars.len(),
                chars@ == text@,
                pattern@.len() == 0,
                replaced@ + replace_all(chars@.skip(i as int), pattern@, replacement@)
                    == replace_all(text@, pattern@, replacement@),
            decreases chars.len() - i,
        {
            let ghost before = replaced@;
            assert(chars@.skip(i as int).drop_first() =~= chars@.skip(i + 1));
            replaced.append(replacement);
            push_char(&mut replaced, chars[i]);
            assert(before + replace_all(chars@.skip(i as int), pattern@, replacement@) =~= replaced@
                + replace_all(chars@.skip(i + 1), pattern@, replacement@));
            i = i + 1;
        }
        assert(chars@.skip(i as int) =~= Seq::<char>::empty());
        replaced.append(replacement);
        return replaced;
    }
    assert(chars@.skip(0) =~= text@);
    assert(replaced@ + replace_all(text@, pattern@, replacement@) =~= replace_all(
        text@,
        pattern@,
        replacement@,
    ));
    while i < chars.len()
        invariant
            0 <= i <= chars.len(),
            chars@ == text@,
            pattern_chars@ == pattern@,
            pattern@.len() > 0,
            replaced@ + replace_all(chars@.skip(i as int), pattern@, replacement@) == replace_all(
                text@,
                pattern@,
                replacement@,
            ),
        decreases chars.len() - i,
    {
        let ghost rest = chars@.skip(i as int);
        if occurs_at_exec(&chars, &pattern_chars, i) {
            assert(rest.take(pattern@.len() as int) =~= chars@.subrange(
                i as int,
                i + pattern@.len(),
            ));
            assert(rest.skip(pattern@.len() as int) =~= chars@.skip(i + pattern@.len()));
            replaced.append(replacement);
            i = i + pattern_chars.len();
        } else {
            assert(!(0 < pattern@.len() <= rest.len() && rest.take(pattern@.len() as int)
                == pattern@)) by {
                if 0 < pattern@.len() <= rest.len() && rest.take(pattern@.len() as int)
                    == pattern@ {
                    assert(rest.take(pattern@.len() as int) =~= chars@.subrange(
                        i as int,
                        i + pattern@.len(),
                    ));
                }
            }
            assert(rest.drop_first() =~= chars@.skip(i + 1));
            push_char(&mut replaced, chars[i]);
            i = i + 1;
        }
    }
    assert(chars@.skip(i as int) =~= Seq::<char>::empty());
    replaced
}

/// What the proxy forwards of the bytes that a client sent: the bytes read as UTF-8,
/// invalid sequences replaced, and every `original` in the text replaced by `modified`.
pub fn rewrite_request(bytes: &[u8]) -> (request: String)
    ensures
        request@ == replace_all(lossy_utf8(bytes@), "original"@, "modified"@),
        valid_utf8(bytes@) ==> request@ == replace_all(decode_utf8(bytes@), "original"@, "modified"@),
{
    let text = decode_lossy(bytes);
    proof {
        reveal_strlit("original");
    }
    replace(text.as_str(), "original", "modified")
}

/// A text in which a pattern that is not empty does not occur comes back unchanged.
pub proof fn lemma_replace_all_without_occurrence(
    text: Seq<char>,
    pattern: Seq<char>,
    replacement: Seq<char>,
)
    requires
        pattern.len() > 0,
        forall|at: int| 0 <= at < text.len() ==> !occurs_at(text, pattern, at),
    ensures
        replace_all(text, pattern, replacement) == text,
    decreases text.len(),
{
    if text.len() > 0 {
        assert(text.take(pattern.len() as int) =~= text.subrange(0, pattern.len() as int));
        assert(!occurs_at(text, pattern, 0));
        let rest = text.drop_first();
        assert forall|at: int| 0 <= at < rest.len() implies !occurs_at(rest, pattern, at) by {
            assert(!occurs_at(text, pattern, at + 1));
            if at + pattern.len() <= rest.len() {
                assert(rest.subrange(at, at + pattern.len()) =~= text.subrange(
                    at + 1,
                    at + 1 + pattern.len(),
                ));
            }
        }
        lemma_replace_all_without_occurrence(rest, pattern, replacement);
        assert(seq![text[0]] + rest =~= text);
    }
}

/// The word that the proxy rewrites.
spec fn original_word() -> Seq<char> {
    seq!['o', 'r', 'i', 'g', 'i', 'n', 'a', 'l']
}

/// The word that the proxy puts in its place.
spec fn modified_word() -> Seq<char> {
    seq!['m', 'o', 'd', 'i', 'f', 'i', 'e', 'd']
}

/// Where the rewritten text starts with a word `w` that holds no `m`, the text before
/// the rewriting started with `w` too: no `modified` can have made that start.
proof fn lemma_rewritten_prefix(text: Seq<char>, w: Seq<char>)
    requires
        forall|k: int| 0 <= k < w.len() ==> w[k] != 'm',
        replace_all(text, original_word(), modified_word()).len() >= w.len(),
        replace_all(text, original_word(), modified_word()).take(w.len() as int) == w,
    ensures
        text.len() >= w.len(),
        text.take(w.len() as int) == w,
    decreases text.len(),
{
    let p = original_word();
    let r = modified_word();
    let out = replace_all(text, p, r);
    if w.len() == 0 {
        assert(text.take(0) =~= w);
    } else if text.len() == 0 {
    } else if 0 < p.len() <= text.len() && text.take(p.len() as int) == p {
        assert(out[0] == w[0]);
        assert(out[0] == 'm');
    } else {
        let rest = text.drop_first();
        let out_rest = replace_all(rest, p, r);
        assert(out == seq![text[0]] + out_rest);
        assert(out_rest.take(w.len() - 1) =~= w.drop_first()) by {
            assert forall|k: int| 0 <= k < w.len() - 1 implies out_rest[k] == w.drop_first()[k] by {
                assert(out[k + 1] == out.take(w.len() as int)[k + 1]);
            }
        }
        assert(out[0] == out.take(w.len() as int)[0]);
        lemma_rewritten_prefix(rest, w.drop_first());
        assert(text.take(w.len() as int) =~= w) by {
            assert forall|k: int| 0 <= k < w.len() implies text[k] == w[k] by {
                if k > 0 {
                    assert(rest.take(w.len() - 1)[k - 1] == w.drop_first()[k - 1]);
                }
            }
        }
    }
}

/// The rewritten text holds no `original`.
proof fn lemma_no_original_left(text: Seq<char>)
    ensures
        forall|at: int|
            !occurs_at(replace_all(text, original_word(), modified_word()), original_word(), at),
    decreases text.len(),
{
    let p = original_word();
    let r = modified_word();
    let out = replace_all(text, p, r);
    if text.len() == 0 {
    } else if 0 < p.len() <= text.len() && text.take(p.len() as int) == p {
        let rest = text.skip(p.len() as int);
        let out_rest = replace_all(rest, p, r);
        lemma_no_original_left(rest);
        assert(out == r + out_rest);
        assert forall|at: int| !occurs_at(out, p, at) by {
            if occurs_at(out, p, at) {
                if at >= 8 {
                    assert(out_rest.subrange(at - 8, at - 8 + 8) =~= out.subrange(at, at + 8));
                    assert(occurs_at(out_rest, p, at - 8));
                } else {
                    assert(out.subrange(at, at + 8)[0] == p[0]);
                    assert(out[at] == 'o');
                    assert(at == 1);
                    assert(out.subrange(at, at + 8)[1] == p[1]);
                    assert(out[2] == 'd');
                }
            }
        }
    } else {
        let rest = text.drop_first();
        let out_rest = replace_all(rest, p, r);
        lemma_no_original_left(rest);
        assert(out == seq![text[0]] + out_rest);
        assert forall|at: int| !occurs_at(out, p, at) by {
            if occurs_at(out, p, at) {
                if at >= 1 {
                    assert(out_rest.subrange(at - 1, at - 1 + 8) =~= out.subrange(at, at + 8));
                    assert(occurs_at(out_rest, p, at - 1));
                } else {
                    let tail = p.drop_first();
                    assert(out_rest.take(7) =~= tail) by {
                        assert forall|k: int| 0 <= k < 7 implies out_rest[k] == tail[k] by {
                            assert(out.subrange(0, 8)[k + 1] == p[k + 1]);
                        }
                    }
                    lemma_rewritten_prefix(rest, tail);
                    assert(text.take(8) =~= p) by {
                        assert forall|k: int| 0 <= k < 8 implies text[k] == p[k] by {
                            if k == 0 {
                                assert(out.subrange(0, 8)[0] == p[0]);
                            } else {
                                assert(rest.take(7)[k - 1] == tail[k - 1]);
                            }
                        }
                    }
                }
            }
        }
    }
}

/// What the proxy forwards holds no `original` any more, so rewriting it a second time
/// changes nothing.
pub proof fn lemma_rewrite_is_complete(text: Seq<char>)
    ensures
        forall|at: int|
            !occurs_at(replace_all(text, "original"@, "modified"@), "original"@, at),
        replace_all(replace_all(text, "original"@, "modified"@), "original"@, "modified"@)
            == replace_all(text, "original"@, "modified"@),
{
    reveal_strlit("original");
    reveal_strlit("modified");
    assert("original"@ =~= original_word());
    assert("modified"@ =~= modified_word());
    lemma_no_original_left(text);
    let once = replace_all(text, original_word(), modified_word());
    lemma_replace_all_without_occurrence(once, original_word(), modified_word());
}

/// The UTF-8 encoding of two texts one after the other is the encoding of the first
/// followed by that of the second.
proof fn lemma_encode_concat(a: Seq<char>, b: Seq<char>)
    ensures
        encode_utf8(a + b) == encode_utf8(a) + encode_utf8(b),
    decreases a.len(),
{
    if a.len() == 0 {
        assert(a + b =~= b);
        assert(encode_utf8(a) + encode_utf8(b) =~= encode_utf8(b));
    } else {
        lemma_encode_concat(a.drop_first(), b);
        assert((a + b).drop_first() =~= a.drop_first() + b);
        assert((a + b)[0] == a[0]);
        assert(encode_scalar(a[0] as u32) + (encode_utf8(a.drop_first()) + encode_utf8(b))
            =~= (encode_scalar(a[0] as u32) + encode_utf8(a.drop_first())) + encode_utf8(b));
    }
}

/// `original` and `modified` both take eight bytes in UTF-8, so the rewriting keeps the
/// encoded length of any text.
proof fn lemma_rewrite_keeps_encoded_length(text: Seq<char>)
    ensures
        encode_utf8(replace_all(text, original_word(), modified_word())).len() == encode_utf8(
            text,
        ).len(),
    decreases text.len(),
{
    let p = original_word();
    let r = modified_word();
    assert(encode_utf8(p).len() == 8) by {
        reveal_with_fuel(encode_utf8, 9);
    }
    assert(encode_utf8(r).len() == 8) by {
        reveal_with_fuel(encode_utf8, 9);
    }
    if text.len() == 0 {
    } else if p.len() <= text.len() && text.take(p.len() as int) == p {
        let rest = text.skip(8);
        assert(text =~= p + rest);
        lemma_encode_concat(p, rest);
        lemma_encode_concat(r, replace_all(rest, p, r));
        lemma_rewrite_keeps_encoded_length(rest);
    } else {
        let rest = text.drop_first();
        assert(text =~= seq![text[0]] + rest);
        lemma_encode_concat(seq![text[0]], rest);
        lemma_encode_concat(seq![text[0]], replace_all(rest, p, r));
        lemma_rewrite_keeps_encoded_length(rest);
    }
}

/// For a request in valid UTF-8, the proxy forwards as many bytes as it read: the
/// encoding of the rewritten text (what `as_bytes` gives of it) is as long as the request.
pub proof fn lemma_rewrite_keeps_byte_count(bytes: Seq<u8>)
    requires
        valid_utf8(bytes),
    ensures
        encode_utf8(replace_all(decode_utf8(bytes), "original"@, "modified"@)).len()
            == bytes.len(),
{
    reveal_strlit("original");
    reveal_strlit("modified");
    assert("original"@ =~= original_word());
    assert("modified"@ =~= modified_word());
    lemma_rewrite_keeps_encoded_length(decode_utf8(bytes));
    decode_utf8_encode_utf8(bytes);
}

/// A request in valid UTF-8 without `original` is forwarded byte for byte as it came.
pub proof fn lemma_rewrite_passes_plain_requests(bytes: Seq<u8>)
    requires
        valid_utf8(bytes),
        forall|at: int| !occurs_at(decode_utf8(bytes), "original"@, at),
    ensures
        encode_utf8(replace_all(decode_utf8(bytes), "original"@, "modified"@)) == bytes,
{
    reveal_strlit("original");
    assert("original"@ =~= original_word());
    lemma_replace_all_without_occurrence(decode_utf8(bytes), "original"@, "modified"@);
    decode_utf8_encode_utf8(bytes);
}

/// Where a pattern that is not empty occurs at the start of a text, the rewrite begins
/// with the whole replacement, exactly, followed by the rewrite of what comes after
/// the occurrence.
pub proof fn lemma_replace_at_start(text: Seq<char>, pattern: Seq<char>, replacement: Seq<char>)
    requires
        pattern.len() > 0,
        occurs_at(text, pattern, 0),
    ensures
        replace_all(text, pattern, replacement) == replacement + replace_all(
            text.skip(pattern.len() as int),
            pattern,
            replacement,
        ),
{
    assert(text.take(pattern.len() as int) =~= text.subrange(0, pattern.len() as int));
}

/// A text `u + pattern + v` in which the pattern occurs only between `u` and `v`
/// becomes `u + replacement + v`: the replacement stands exactly where the pattern
/// stood, and all else is kept, however long `u` and `v` are.
pub proof fn lemma_replace_single_occurrence(
    u: Seq<char>,
    v: Seq<char>,
    pattern: Seq<char>,
    replacement: Seq<char>,
)
    requires
        pattern.len() > 0,
        forall|at: int| occurs_at(u + pattern + v, pattern, at) ==> at == u.len(),
    ensures
        replace_all(u + pattern + v, pattern, replacement) == u + replacement + v,
    decreases u.len(),
{
    let t = u + pattern + v;
    let n = pattern.len() as int;
    if u.len() == 0 {
        assert(t =~= pattern + v);
        assert(t.subrange(0, n) =~= pattern);
        assert(occurs_at(t, pattern, 0));
        lemma_replace_at_start(t, pattern, replacement);
        assert(t.skip(n) =~= v);
        assert forall|at: int| 0 <= at < v.len() implies !occurs_at(v, pattern, at) by {
            if occurs_at(v, pattern, at) {
                assert(t.subrange(at + n, at + n + n) =~= v.subrange(at, at + n));
                assert(occurs_at(t, pattern, at + n));
            }
        }
        lemma_replace_all_without_occurrence(v, pattern, replacement);
        assert(u + replacement + v =~= replacement + v);
    } else {
        let rest = u.drop_first() + pattern + v;
        assert(t.drop_first() =~= rest);
        assert(!occurs_at(t, pattern, 0));
        assert(!(0 < n <= t.len() && t.take(n) == pattern)) by {
            assert(t.take(n) =~= t.subrange(0, n));
        }
        assert forall|at: int| occurs_at(rest, pattern, at) implies at == u.drop_first().len() by {
            assert(t.subrange(at + 1, at + 1 + n) =~= rest.subrange(at, at + n));
            assert(occurs_at(t, pattern, at + 1));
        }
        lemma_replace_single_occurrence(u.drop_first(), v, pattern, replacement);
        assert(t[0] == u[0]);
        assert(seq![u[0]] + (u.drop_first() + replacement + v) =~= u + replacement + v);
    }
}

/// A request in which `original` occurs once, between `u` and `v`, is forwarded as
/// `u + "modified" + v`.
pub proof fn lemma_rewrite_single_word(u: Seq<char>, v: Seq<char>)
    requires
        forall|at: int| occurs_at(u + "original"@ + v, "original"@, at) ==> at == u.len(),
    ensures
        replace_all(u + "original"@ + v, "original"@, "modified"@) == u + "modified"@ + v,
{
    reveal_strlit("original");
    lemma_replace_single_occurrence(u, v, "original"@, "modified"@);
}

/// With an empty pattern the replacement stands before each character and at the end:
/// an empty text becomes the replacement alone, and one more character at the end of
/// the text adds that character and one more replacement at the end of the result.
pub proof fn lemma_replace_empty_pattern(text: Seq<char>, c: char, replacement: Seq<char>)
    ensures
        replace_all(Seq::<char>::empty(), Seq::<char>::empty(), replacement) == replacement,
        replace_all(text.push(c), Seq::<char>::empty(), replacement) == replace_all(
            text,
            Seq::<char>::empty(),
            replacement,
        ) + seq![c] + replacement,
    decreases text.len(),
{
    let e = Seq::<char>::empty();
    if text.len() == 0 {
        assert(text.push(c).drop_first() =~= e);
        assert(text =~= e);
        assert(replace_all(e, e, replacement) == replacement);
        assert(text.push(c)[0] == c);
        assert(replace_all(text.push(c), e, replacement) == replacement + seq![c] + replace_all(
            e,
            e,
            replacement,
        ));
        assert(replace_all(text.push(c), e, replacement) =~= replacement + seq![c] + replacement);
    } else {
        lemma_replace_empty_pattern(text.drop_first(), c, replacement);
        assert(text.push(c).drop_first() =~= text.drop_first().push(c));
        assert(text.push(c)[0] == text[0]);
        assert(replace_all(text.push(c), e, replacement) =~= replace_all(text, e, replacement)
            + seq![c] + replacement);
    }
}

} // verus!
