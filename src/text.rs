use vstd::prelude::*;

verus! {

/// `\b`, a word boundary in a regular expression.
pub open spec fn word_boundary() -> Seq<char> {
    seq!['\\', 'b']
}

/// The pattern that matches `key` as a whole word.
pub fn default_pattern(key: &str) -> (r: String)
    ensures
        r@ == word_boundary() + key@ + word_boundary(),
{
    let boundary: &str = "\\b";
    proof {
        reveal_strlit("\\b");
    }
    assert(boundary@ =~= word_boundary());
    let mut r = boundary.to_owned();
    r.append(key);
    r.append(boundary);
    r
}

/// The pattern a new acronym gets: the one given, or else the key as a whole
/// word.
pub fn pattern_or_default(key: &str, regex: Option<String>) -> (r: String)
    ensures
        r@ == (match regex {
            Some(p) => p@,
            None => word_boundary() + key@ + word_boundary(),
        }),
{
    match regex {
        Some(p) => p,
        None => default_pattern(key),
    }
}

/// The prefix that marks a thread's full name.
pub open spec fn thread_prefix() -> Seq<char> {
    seq!['t', '3', '_']
}

/// `s` without every leading copy of the thread prefix.
pub open spec fn strip_thread_prefix(s: Seq<char>) -> Seq<char>
    decreases s.len(),
{
    if s.len() >= 3 && s.take(3) == thread_prefix() {
        strip_thread_prefix(s.skip(3))
    } else {
        s
    }
}

/// The thread identifier in a link: the link without its leading `t3_`
/// prefixes.
pub fn thread_of_link(link: &str) -> (r: String)
    ensures
        r@ == strip_thread_prefix(link@),
{
    let n = link.unicode_len();
    let mut i: usize = 0;
    let mut stripping = true;
    assert(link@.skip(0) =~= link@);
    while stripping
        invariant
            n == link@.len(),
            i <= n,
            strip_thread_prefix(link@) == (if stripping {
                strip_thread_prefix(link@.skip(i as int))
            } else {
                link@.skip(i as int)
            }),
        decreases n - i + (if stripping { 1int } else { 0int }),
    {
        let ghost rest = link@.skip(i as int);
        if n - i >= 3 && link.get_char(i) == 't' && link.get_char(i + 1) == '3' && link.get_char(
            i + 2,
        ) == '_' {
            assert(rest.take(3) =~= thread_prefix());
            assert(rest.skip(3) =~= link@.skip(i + 3));
            i = i + 3;
        } else {
            proof {
                if rest.len() >= 3 {
                    assert(rest.take(3)[0] == link@[i as int]);
                    assert(rest.take(3)[1] == link@[i + 1]);
                    assert(rest.take(3)[2] == link@[i + 2]);
                }
            }
            stripping = false;
        }
    }
    link.substring_char(i, n).to_owned()
}

/// The number of decimal digits of `n`, zero having one.
pub open spec fn decimal_digits(n: nat) -> nat
    decreases n,
{
    if n < 10 {
        1
    } else {
        1 + decimal_digits(n / 10)
    }
}

proof fn lemma_digits_bound(n: nat)
    requires
        n >= 1,
    ensures
        decimal_digits(n) <= n,
    decreases n,
{
    if n >= 10 {
        lemma_digits_bound(n / 10);
    }
}

/// The width that the largest of `n` numbers from one takes in decimal, as
/// used to align a listing of `n` entries.
pub fn index_width(n: usize) -> (r: usize)
    ensures
        r == decimal_digits(n as nat),
{
    let mut w: usize = 1;
    let mut m: usize = n;
    while m >= 10
        invariant
            w + decimal_digits(m as nat) == decimal_digits(n as nat) + 1,
            m <= n,
        decreases m,
    {
        proof {
            lemma_digits_bound(n as nat);
            reveal_with_fuel(decimal_digits, 2);
            assert(decimal_digits(m as nat) >= 2);
        }
        m = m / 10;
        w = w + 1;
    }
    w
}

} // verus!
