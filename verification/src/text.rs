//! Text: comparison, joining and numbers in decimal.
use vstd::prelude::*;
use vstd::string::*;

verus! {

/// `String::push` appends one character.
pub assume_specification[ String::push ](text: &mut String, letter: char)
    ensures
        final(text)@ == old(text)@.push(letter),
;

/// The decimal digit `d`.
pub open spec fn digit(d: int) -> char {
    (48 + d) as char
}

/// A number in decimal, without leading zeros.
pub open spec fn digits(n: nat) -> Seq<char>
    decreases n,
{
    if n < 10 {
        seq![digit(n as int)]
    } else {
        digits(n / 10).push(digit((n % 10) as int))
    }
}

/// Whether two texts are the same.
pub fn same_text(a: &str, b: &str) -> (r: bool)
    ensures
        r == (a@ == b@),
{
    a.to_owned() == b.to_owned()
}

/// Appends the number in decimal.
pub fn push_decimal(text: &mut String, n: u64)
    ensures
        final(text)@ == old(text)@ + digits(n as nat),
    decreases n,
{
    if n >= 10 {
        push_decimal(text, n / 10);
    }
    let d: u8 = (n % 10) as u8;
    text.push((48 + d) as char);
}

/// A letter with the capitals `A` to `Z` made small.
pub open spec fn small(letter: char) -> char {
    if 'A' <= letter <= 'Z' {
        (letter as int + 32) as char
    } else {
        letter
    }
}

/// The text with the capitals `A` to `Z` made small.
pub fn lowercase(text: &str) -> (r: String)
    ensures
        r@ == text@.map_values(|c: char| small(c)),
{
    let mut r = String::new();
    for c in it: text.chars()
        invariant
            it.seq() == text@,
            r@ == text@.take(it.index()).map_values(|c: char| small(c)),
    {
        proof {
            assert(text@.take(it.index() + 1) =~= text@.take(it.index()).push(c));
            assert(text@.take(it.index() + 1).map_values(|c: char| small(c))
                =~= text@.take(it.index()).map_values(|c: char| small(c)).push(small(c)));
        }
        if 'A' <= c && c <= 'Z' {
            r.push((c as u8 + 32) as char);
        } else {
            r.push(c);
        }
    }
    proof {
        assert(text@.take(text@.len() as int) =~= text@);
    }
    r
}

/// The texts one after another, with a separator between each two.
pub open spec fn joined(texts: Seq<Seq<char>>, separator: Seq<char>) -> Seq<char>
    decreases texts.len(),
{
    if texts.len() == 0 {
        seq![]
    } else if texts.len() == 1 {
        texts[0]
    } else {
        joined(texts.drop_last(), separator) + separator + texts.last()
    }
}

/// The texts as sequences of characters.
pub open spec fn texts_view(texts: Seq<String>) -> Seq<Seq<char>> {
    texts.map_values(|text: String| text@)
}

/// The texts one after another, with a separator between each two.
pub fn join(texts: &Vec<String>, separator: &str) -> (r: String)
    ensures
        r@ == joined(texts_view(texts@), separator@),
{
    let mut r = String::new();
    let ghost all = texts_view(texts@);
    proof {
        assert(r@ =~= joined(all.take(0), separator@));
    }
    for i in 0..texts.len()
        invariant
            all == texts_view(texts@),
            r@ == joined(all.take(i as int), separator@),
    {
        proof {
            assert(all.take(i + 1).drop_last() =~= all.take(i as int));
            assert(all.take(i + 1).last() == texts@[i as int]@);
        }
        if i > 0 {
            r.append(separator);
        }
        r.append(&texts[i]);
        proof {
            assert(i == 0 ==> r@ =~= all.take(1)[0]);
        }
    }
    proof {
        assert(all.take(all.len() as int) =~= all);
    }
    r
}

/// The letters of the text, in order.
pub fn letters(text: &str) -> (r: Vec<char>)
    ensures
        r@ == text@,
{
    let mut r: Vec<char> = Vec::new();
    for c in it: text.chars()
        invariant
            it.seq() == text@,
            r@ == text@.take(it.index()),
    {
        proof {
            assert(text@.take(it.index() + 1) =~= text@.take(it.index()).push(c));
        }
        r.push(c);
    }
    proof {
        assert(text@.take(text@.len() as int) =~= text@);
    }
    r
}

/// Whether `a` stands before `b` in the dictionary order of code points.
pub open spec fn before(a: Seq<char>, b: Seq<char>) -> bool
    decreases a.len(),
{
    if b.len() == 0 {
        false
    } else if a.len() == 0 {
        true
    } else if a[0] != b[0] {
        a[0] < b[0]
    } else {
        before(a.drop_first(), b.drop_first())
    }
}

/// No text stands before itself.
pub proof fn law_before_is_irreflexive(a: Seq<char>)
    ensures
        !before(a, a),
    decreases a.len(),
{
    if a.len() > 0 {
        law_before_is_irreflexive(a.drop_first());
    }
}

/// Of two different texts one stands before the other.
pub proof fn law_before_is_total(a: Seq<char>, b: Seq<char>)
    ensures
        a == b || before(a, b) || before(b, a),
    decreases a.len(),
{
    if a.len() > 0 && b.len() > 0 && a[0] == b[0] {
        law_before_is_total(a.drop_first(), b.drop_first());
        assert(a.drop_first() == b.drop_first() ==> a =~= b) by {
            assert(a =~= seq![a[0]] + a.drop_first());
            assert(b =~= seq![b[0]] + b.drop_first());
        }
    } else if a.len() == 0 && b.len() == 0 {
        assert(a =~= b);
    }
}

/// The order of texts is transitive.
pub proof fn law_before_is_transitive(a: Seq<char>, b: Seq<char>, c: Seq<char>)
    requires
        before(a, b),
        before(b, c),
    ensures
        before(a, c),
    decreases a.len(),
{
    if a.len() > 0 && a[0] == b[0] && b[0] == c[0] {
        law_before_is_transitive(a.drop_first(), b.drop_first(), c.drop_first());
    }
}

/// Whether the text `a` stands before the text `b`.
pub fn is_before(a: &str, b: &str) -> (r: bool)
    ensures
        r == before(a@, b@),
{
    let left = letters(a);
    let right = letters(b);
    let mut i: usize = 0;
    proof {
        assert(left@.skip(0) =~= left@);
        assert(right@.skip(0) =~= right@);
    }
    while i < left.len() && i < right.len() && left[i] == right[i]
        invariant
            left@ == a@,
            right@ == b@,
            i <= left.len(),
            i <= right.len(),
            before(a@, b@) == before(left@.skip(i as int), right@.skip(i as int)),
        decreases left.len() - i,
    {
        proof {
            let l = left@.skip(i as int);
            let r = right@.skip(i as int);
            assert(l.drop_first() =~= left@.skip(i + 1));
            assert(r.drop_first() =~= right@.skip(i + 1));
            assert(l[0] == left@[i as int] && r[0] == right@[i as int]);
        }
        i = i + 1;
    }
    proof {
        let l = left@.skip(i as int);
        let r = right@.skip(i as int);
        assert(l.len() > 0 ==> l[0] == left@[i as int]);
        assert(r.len() > 0 ==> r[0] == right@[i as int]);
    }
    i < right.len() && (i == left.len() || left[i] < right[i])
}

/// The number that decimal digits denote.
pub open spec fn denoted(text: Seq<char>) -> int
    decreases text.len(),
{
    if text.len() == 0 {
        0
    } else {
        denoted(text.drop_last()) * 10 + (text.last() as int - '0' as int)
    }
}

proof fn lemma_digits_denote(n: nat)
    ensures
        denoted(digits(n)) == n,
        digits(n).len() > 0,
        forall|i: int| 0 <= i < digits(n).len() ==> '0' <= #[trigger] digits(n)[i] <= '9',
        digits(n).len() > 1 ==> digits(n)[0] != '0',
    decreases n,
{
    if n >= 10 {
        lemma_digits_denote(n / 10);
        let head = digits(n / 10);
        assert(digits(n).drop_last() =~= head);
        if head.len() == 1 {
            assert(head.drop_last() =~= Seq::empty());
            assert(denoted(head.drop_last()) == 0);
            assert(denoted(head) == head[0] as int - '0' as int);
        }
        assert(digits(n)[0] == head[0]);
    } else {
        let own = seq![digit(n as int)];
        assert(own.drop_last() =~= Seq::empty());
        assert(denoted(own.drop_last()) == 0);
    }
}

/// A number is written in decimal digits that denote it, after what was there, and without
/// zeros in front.
pub proof fn law_numbers_are_written_in_decimal(text: &mut String, n: u64)
    requires
        call_ensures(push_decimal, (text, n), ()),
    ensures
        ({
            let written = final(text)@.skip(old(text)@.len() as int);
            &&& final(text)@.len() > old(text)@.len()
            &&& final(text)@.take(old(text)@.len() as int) == old(text)@
            &&& denoted(written) == n
            &&& forall|i: int| 0 <= i < written.len() ==> '0' <= #[trigger] written[i] <= '9'
            &&& written.len() > 1 ==> written[0] != '0'
        }),
{
    lemma_digits_denote(n as nat);
    let written = final(text)@.skip(text@.len() as int);
    assert(written =~= digits(n as nat));
    assert(final(text)@.take(text@.len() as int) =~= text@);
}

/// Capitals become small and all else stays; doing it twice does no more.
pub proof fn law_capitals_become_small(text: &str, r: String, again: String, i: int)
    requires
        call_ensures(lowercase, (text,), r),
        again@ == r@.map_values(|c: char| small(c)),
        0 <= i < text@.len(),
    ensures
        r@.len() == text@.len(),
        'A' <= text@[i] <= 'Z' ==> r@[i] as int == text@[i] as int + ('a' as int - 'A' as int),
        !('A' <= text@[i] <= 'Z') ==> r@[i] == text@[i],
        again@[i] == r@[i],
{
}

/// Texts are joined with the separator between each two and nowhere else.
pub proof fn law_joined_texts_are_separated(
    texts: &Vec<String>,
    longer: &Vec<String>,
    last: String,
    separator: &str,
    before: String,
    after: String,
)
    requires
        longer@ == texts@.push(last),
        call_ensures(join, (texts, separator), before),
        call_ensures(join, (longer, separator), after),
    ensures
        texts@.len() == 0 ==> before@.len() == 0 && after@ == last@,
        texts@.len() > 0 ==> after@ == before@ + separator@ + last@,
{
    let all = texts_view(longer@);
    assert(all.drop_last() =~= texts_view(texts@));
    assert(all.last() == last@);
}

/// One text comes before another where the first letter in which they differ is smaller, or
/// where it ends before they differ.
pub proof fn law_first_difference_decides(a: Seq<char>, b: Seq<char>, k: int)
    requires
        0 <= k <= a.len(),
        k < b.len(),
        a.take(k) == b.take(k),
        k == a.len() || a[k] < b[k],
    ensures
        before(a, b),
        !before(b, a),
    decreases k,
{
    if k > 0 {
        assert(a[0] == a.take(k)[0]);
        assert(b[0] == b.take(k)[0]);
        assert(a.drop_first().take(k - 1) =~= a.take(k).drop_first());
        assert(b.drop_first().take(k - 1) =~= b.take(k).drop_first());
        law_first_difference_decides(a.drop_first(), b.drop_first(), k - 1);
    }
}

/// Texts are the same where their letters are, and read letter by letter.
pub proof fn law_texts_are_their_letters(
    a: &str,
    b: &str,
    same: bool,
    earlier: bool,
    later: bool,
    read: Vec<char>,
)
    requires
        call_ensures(same_text, (a, b), same),
        call_ensures(is_before, (a, b), earlier),
        call_ensures(is_before, (b, a), later),
        call_ensures(letters, (a,), read),
    ensures
        same <==> a@ == b@,
        same ==> !earlier && !later,
        !same ==> earlier != later,
        read@ == a@,
{
    if a@ == b@ {
        law_before_is_irreflexive(a@);
    } else {
        law_before_is_total(a@, b@);
        if before(a@, b@) && before(b@, a@) {
            law_before_is_transitive(a@, b@, a@);
            law_before_is_irreflexive(a@);
        }
    }
}

} // verus!
