//! Replacing a token in a text.
use vstd::prelude::*;
use vstd::string::*;

verus! {

/// `text` with every occurrence of `token` replaced by `value`.
///
/// Occurrences are taken from the left and do not overlap.
pub open spec fn replace_all(text: Seq<char>, token: Seq<char>, value: Seq<char>) -> Seq<char>
    decreases text.len(),
{
    if token.len() == 0 || text.len() < token.len() {
        text
    } else if text.take(token.len() as int) == token {
        value + replace_all(text.skip(token.len() as int), token, value)
    } else {
        seq![text[0]] + replace_all(text.skip(1), token, value)
    }
}

/// Whether `token` stands in `text` from place `i` on.
pub open spec fn occurs_at(text: Seq<char>, token: Seq<char>, i: int) -> bool {
    &&& 0 <= i
    &&& i + token.len() <= text.len()
    &&& text.subrange(i, i + token.len()) == token
}

/// Whether `token` stands anywhere in `text`.
pub open spec fn occurs(text: Seq<char>, token: Seq<char>) -> bool {
    exists|i: int| occurs_at(text, token, i)
}

/// The characters of a text.
fn characters(text: &str) -> (characters: Vec<char>)
    ensures
        characters@ == text@,
{
    let mut characters: Vec<char> = Vec::new();
    for c in walk: text.chars()
        invariant
            characters@ == text@.take(walk.index() as int),
            walk.seq() == text@,
    {
        characters.push(c);
    }
    characters
}

/// Whether `token` stands in `text` from place `i` on.
fn token_at(text: &Vec<char>, token: &Vec<char>, i: usize) -> (there: bool)
    requires
        i <= text.len(),
    ensures
        there == occurs_at(text@, token@, i as int),
{
    if text.len() - i < token.len() {
        return false;
    }
    let mut k: usize = 0;
    while k < token.len()
        invariant
            i + token.len() <= text.len(),
            k <= token.len(),
            forall|j: int| 0 <= j < k ==> text@[i + j] == #[trigger] token@[j],
        decreases token.len() - k,
    {
        if text[i + k] != token[k] {
            assert(text@.subrange(i as int, i + token@.len())[k as int] == text@[i + k]);
            return false;
        }
        k += 1;
    }
    assert(text@.subrange(i as int, i + token@.len()) =~= token@);
    true
}

/// Replaces every occurrence of `token` in `text` by `value`.
pub fn replace(text: &str, token: &str, value: &str) -> (replaced: String)
    requires
        token@.len() > 0,
    ensures
        replaced@ == replace_all(text@, token@, value@),
{
    let from = characters(text);
    let wanted = characters(token);
    let mut replaced = String::new();
    let mut copied: usize = 0;
    let mut i: usize = 0;
    proof {
        assert(text@.skip(0) =~= text@);
        assert(text@.subrange(0, 0) =~= Seq::<char>::empty());
    }
    while i < from.len()
        invariant
            from@ == text@,
            wanted@ == token@,
            token@.len() > 0,
            copied <= i <= from.len(),
            replace_all(text@, token@, value@) == replaced@ + text@.subrange(
                copied as int,
                i as int,
            ) + replace_all(text@.skip(i as int), token@, value@),
        decreases from.len() - i,
    {
        let ghost rest = text@.skip(i as int);
        if token_at(&from, &wanted, i) {
            replaced.append(text.substring_char(copied, i));
            replaced.append(value);
            proof {
                assert(rest.take(token@.len() as int) =~= token@);
                assert(rest.skip(token@.len() as int) =~= text@.skip(i + token@.len()));
            }
            i += wanted.len();
            copied = i;
            assert(text@.subrange(copied as int, i as int) =~= Seq::<char>::empty());
        } else {
            proof {
                if rest.len() >= token@.len() {
                    assert(rest.take(token@.len() as int) =~= text@.subrange(
                        i as int,
                        i + token@.len(),
                    ));
                }
                assert(rest =~= seq![text@[i as int]] + text@.skip(i + 1));
                assert(text@.subrange(copied as int, i + 1) =~= text@.subrange(
                    copied as int,
                    i as int,
                ) + seq![text@[i as int]]);
                assert(rest.skip(1) =~= text@.skip(i + 1));
                if rest.len() < token@.len() {
                    assert(replace_all(rest.skip(1), token@, value@) == rest.skip(1));
                }
            }
            i += 1;
        }
    }
    replaced.append(text.substring_char(copied, i));
    assert(replace_all(text@.skip(i as int), token@, value@) =~= Seq::<char>::empty());
    replaced
}

/// A text that does not hold the token is left as it is.
pub proof fn lemma_replace_absent(text: Seq<char>, token: Seq<char>, value: Seq<char>)
    requires
        !occurs(text, token),
    ensures
        replace_all(text, token, value) == text,
    decreases text.len(),
{
    if token.len() > 0 && text.len() >= token.len() {
        assert(text.subrange(0, token.len() as int) =~= text.take(token.len() as int));
        assert(!occurs_at(text, token, 0));
        let rest = text.skip(1);
        assert forall|i: int| !occurs_at(rest, token, i) by {
            if occurs_at(rest, token, i) {
                assert(text.subrange(i + 1, i + 1 + token.len()) =~= rest.subrange(
                    i,
                    i + token.len(),
                ));
                assert(occurs_at(text, token, i + 1));
            }
        }
        lemma_replace_absent(rest, token, value);
        assert(seq![text[0]] + rest =~= text);
    }
}

/// Where the value starts with a character that the first `n` characters of the outcome do not
/// hold, those `n` characters are those of the text.
proof fn lemma_prefix_kept(
    text: Seq<char>,
    token: Seq<char>,
    value: Seq<char>,
    fence: char,
    n: int,
)
    requires
        value.len() > 0,
        value[0] == fence,
        0 <= n <= replace_all(text, token, value).len(),
        !replace_all(text, token, value).take(n).contains(fence),
    ensures
        n <= text.len(),
        text.take(n) == replace_all(text, token, value).take(n),
    decreases text.len(),
{
    let outcome = replace_all(text, token, value);
    if n == 0 {
        assert(text.take(0) =~= outcome.take(0));
    } else if token.len() == 0 || text.len() < token.len() {
    } else if text.take(token.len() as int) == token {
        assert(outcome.take(n)[0] == fence);
    } else {
        let rest = replace_all(text.skip(1), token, value);
        let kept = rest.take(n - 1);
        assert forall|i: int| 0 <= i < kept.len() implies kept[i] != fence by {
            assert(outcome.take(n)[i + 1] == kept[i]);
        }
        lemma_prefix_kept(text.skip(1), token, value, fence, n - 1);
        assert(text.take(n) =~= seq![text[0]] + text.skip(1).take(n - 1));
        assert(outcome.take(n) =~= seq![text[0]] + rest.take(n - 1));
    }
}

/// Where the value is fenced by a character that the token does not hold, and does not hold the
/// token itself, the outcome does not hold the token.
pub proof fn lemma_token_gone(
    text: Seq<char>,
    token: Seq<char>,
    value: Seq<char>,
    fence: char,
)
    requires
        token.len() > 0,
        value.len() > 0,
        value[0] == fence,
        value.last() == fence,
        !token.contains(fence),
        !occurs(value, token),
    ensures
        !occurs(replace_all(text, token, value), token),
    decreases text.len(),
{
    let outcome = replace_all(text, token, value);
    let len = token.len() as int;
    assert forall|i: int| !occurs_at(outcome, token, i) by {
        if occurs_at(outcome, token, i) {
            if text.len() < len {
            } else if text.take(len) == token {
                let rest = replace_all(text.skip(len), token, value);
                lemma_token_gone(text.skip(len), token, value, fence);
                if i >= value.len() {
                    assert(rest.subrange(i - value.len(), i - value.len() + len)
                        =~= outcome.subrange(i, i + len));
                    assert(occurs_at(rest, token, i - value.len()));
                } else if i + len <= value.len() {
                    assert(value.subrange(i, i + len) =~= outcome.subrange(i, i + len));
                    assert(occurs_at(value, token, i));
                } else {
                    let k = value.len() - 1 - i;
                    assert(outcome.subrange(i, i + len)[k] == fence);
                    assert(token[k] == fence);
                }
            } else {
                let rest = replace_all(text.skip(1), token, value);
                lemma_token_gone(text.skip(1), token, value, fence);
                if i >= 1 {
                    assert(rest.subrange(i - 1, i - 1 + len) =~= outcome.subrange(i, i + len));
                    assert(occurs_at(rest, token, i - 1));
                } else {
                    assert(outcome.take(len) =~= outcome.subrange(0, len));
                    lemma_prefix_kept(text, token, value, fence, len);
                }
            }
        }
    }
}

/// A text within quotes holds the token only where the text itself does.
pub proof fn lemma_fenced(text: Seq<char>, token: Seq<char>, fence: char)
    requires
        token.len() > 0,
        !token.contains(fence),
        !occurs(text, token),
    ensures
        !occurs(seq![fence] + text + seq![fence], token),
{
    let fenced = seq![fence] + text + seq![fence];
    let len = token.len() as int;
    assert forall|i: int| !occurs_at(fenced, token, i) by {
        if occurs_at(fenced, token, i) {
            if i == 0 {
                assert(fenced.subrange(i, i + len)[0] == fence);
                assert(token[0] == fence);
            } else if i + len == fenced.len() {
                assert(fenced.subrange(i, i + len)[len - 1] == fence);
                assert(token[len - 1] == fence);
            } else {
                assert(text.subrange(i - 1, i - 1 + len) =~= fenced.subrange(i, i + len));
                assert(occurs_at(text, token, i - 1));
            }
        }
    }
}

/// The first place where a token stands is where it is replaced first: what comes before is left as
/// it is, the value comes in its place, and what follows is gone on with.
pub proof fn law_the_first_token_is_replaced_first(
    text: Seq<char>,
    token: Seq<char>,
    value: Seq<char>,
    i: int,
)
    requires
        token.len() > 0,
        occurs_at(text, token, i),
        forall|j: int| 0 <= j < i ==> !#[trigger] occurs_at(text, token, j),
    ensures
        replace_all(text, token, value) == text.take(i) + value + replace_all(
            text.skip(i + token.len()),
            token,
            value,
        ),
    decreases i,
{
    let len = token.len() as int;
    assert(text.subrange(0, len) =~= text.take(len));
    if i == 0 {
        assert(text.take(0) + value =~= value);
    } else {
        assert(!occurs_at(text, token, 0));
        let rest = text.skip(1);
        assert(rest.subrange(i - 1, i - 1 + len) =~= text.subrange(i, i + len));
        assert forall|j: int| 0 <= j < i - 1 implies !#[trigger] occurs_at(rest, token, j) by {
            assert(!occurs_at(text, token, j + 1));
            if occurs_at(rest, token, j) {
                assert(rest.subrange(j, j + len) =~= text.subrange(j + 1, j + 1 + len));
            }
        }
        law_the_first_token_is_replaced_first(rest, token, value, i - 1);
        assert(rest.skip(i - 1 + len) =~= text.skip(i + len));
        let more = replace_all(text.skip(i + len), token, value);
        assert(seq![text[0]] + (rest.take(i - 1) + value + more) =~= text.take(i) + value + more);
    }
}

/// A text that ends with a character that no token holds is replaced by itself, whatever follows it,
/// and still ends with that character.
pub proof fn lemma_replace_split(
    text: Seq<char>,
    more: Seq<char>,
    token: Seq<char>,
    value: Seq<char>,
)
    requires
        text.len() > 0,
        !token.contains(text.last()),
    ensures
        replace_all(text + more, token, value) == replace_all(text, token, value) + replace_all(
            more,
            token,
            value,
        ),
        replace_all(text, token, value).len() > 0,
        replace_all(text, token, value).last() == text.last(),
    decreases text.len(),
{
    let len = token.len() as int;
    let all = text + more;
    if len > 0 {
        if all.len() >= len && all.take(len) == token {
            if text.len() <= len {
                assert(all.take(len)[text.len() - 1] == text.last());
                assert(token[text.len() - 1] == text.last());
            }
            assert(text.take(len) =~= all.take(len));
            let rest = text.skip(len);
            assert(rest.last() == text.last());
            lemma_replace_split(rest, more, token, value);
            assert(all.skip(len) =~= rest + more);
            assert(value + (replace_all(rest, token, value) + replace_all(more, token, value))
                =~= value + replace_all(rest, token, value) + replace_all(more, token, value));
        } else {
            if text.len() >= len {
                assert(text.take(len) =~= all.take(len));
            }
            let rest = text.skip(1);
            assert(all.skip(1) =~= rest + more);
            if rest.len() == 0 {
                assert(all.skip(1) =~= more);
                assert(text =~= seq![text[0]]);
                lemma_short(text, token, value);
            } else {
                assert(rest.last() == text.last());
                lemma_replace_split(rest, more, token, value);
                lemma_head(text, token, value);
                assert(seq![text[0]] + (replace_all(rest, token, value) + replace_all(
                    more,
                    token,
                    value,
                )) =~= seq![text[0]] + replace_all(rest, token, value) + replace_all(
                    more,
                    token,
                    value,
                ));
            }
            lemma_head(all, token, value);
        }
    }
}

/// Where the token does not stand at the beginning, the first character is left as it is.
proof fn lemma_head(text: Seq<char>, token: Seq<char>, value: Seq<char>)
    requires
        text.len() > 0,
        token.len() > 0,
        text.len() >= token.len() ==> text.take(token.len() as int) != token,
    ensures
        replace_all(text, token, value) == seq![text[0]] + replace_all(
            text.skip(1),
            token,
            value,
        ),
{
    if text.len() < token.len() {
        assert(seq![text[0]] + text.skip(1) =~= text);
    }
}

/// A single character that is not the token is left as it is.
proof fn lemma_short(text: Seq<char>, token: Seq<char>, value: Seq<char>)
    requires
        text.len() == 1,
        token.len() > 0,
        !token.contains(text[0]),
    ensures
        replace_all(text, token, value) == text,
{
    if token.len() == 1 {
        if text.take(1) == token {
            assert(token[0] == text[0]);
        }
        assert(text.take(1) =~= text);
        lemma_head(text, token, value);
        assert(text.skip(1) =~= Seq::empty());
        assert(replace_all(text.skip(1), token, value) == text.skip(1));
        assert(seq![text[0]] + text.skip(1) =~= text);
    }
}

} // verus!
