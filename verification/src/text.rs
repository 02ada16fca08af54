//! Text helpers shared by the diagnostic builders.

use vstd::prelude::*;
use vstd::string::*;

verus! {

/// The separator that `or_list` writes in front of item `i` of `len` items.
pub open spec fn or_list_joiner(i: int, len: int) -> Seq<char> {
    if i <= 0 {
        Seq::empty()
    } else if i == len - 1 && len > 2 {
        ", or "@
    } else if i == len - 1 && len == 2 {
        " or "@
    } else {
        ", "@
    }
}

/// The first `n` items of `items`, joined as `or_list` joins them.
pub open spec fn or_list_prefix(items: Seq<Seq<char>>, n: nat) -> Seq<char>
    decreases n,
{
    if n == 0 || n > items.len() {
        Seq::empty()
    } else {
        or_list_prefix(items, (n - 1) as nat) + or_list_joiner(n - 1, items.len() as int)
            + items[n - 1]
    }
}

/// `a`, `a or b`, `a, b, or c`: the items in order, joined by commas, with `or`
/// before the last one.
pub open spec fn or_list_text(items: Seq<Seq<char>>) -> Seq<char> {
    or_list_prefix(items, items.len())
}

/// The texts of a slice of string slices.
pub open spec fn str_views(list: &[&str]) -> Seq<Seq<char>> {
    Seq::new(list@.len(), |i: int| list@[i]@)
}

/// Joins the items into an English list that ends in "or".
pub fn or_list(list: &[&str]) -> (s: String)
    ensures
        s@ == or_list_text(str_views(list)),
{
    let len = list.len();
    let mut s = String::new();
    let mut i: usize = 0;
    while i < len
        invariant
            len == list@.len(),
            i <= len,
            s@ == or_list_prefix(str_views(list), i as nat),
        decreases len - i,
    {
        if i > 0 {
            let is_last = i == len - 1;
            if len > 2 && is_last {
                s.append(", or ");
            } else if len == 2 && is_last {
                s.append(" or ");
            } else {
                s.append(", ");
            }
        }
        s.append(list[i]);
        i = i + 1;
    }
    s
}

/// Whether `a` comes before `b` when the two are compared character by
/// character from index `i` on; a proper prefix comes first.
pub open spec fn text_lt_from(a: Seq<char>, b: Seq<char>, i: int) -> bool
    decreases a.len() - i,
{
    if i < 0 || i >= b.len() {
        false
    } else if i >= a.len() {
        true
    } else if a[i] != b[i] {
        (a[i] as int) < (b[i] as int)
    } else {
        text_lt_from(a, b, i + 1)
    }
}

/// The dictionary order on texts, by character code.
pub open spec fn text_lt(a: Seq<char>, b: Seq<char>) -> bool {
    text_lt_from(a, b, 0)
}

/// Compares two texts in dictionary order.
pub fn str_lt(a: &str, b: &str) -> (r: bool)
    ensures
        r == text_lt(a@, b@),
{
    let la = a.unicode_len();
    let lb = b.unicode_len();
    let mut i: usize = 0;
    while i < la && i < lb
        invariant
            la == a@.len(),
            lb == b@.len(),
            i <= la,
            i <= lb,
            text_lt(a@, b@) == text_lt_from(a@, b@, i as int),
        decreases la - i,
    {
        let ca = a.get_char(i);
        let cb = b.get_char(i);
        if ca != cb {
            return (ca as u32) < (cb as u32);
        }
        i = i + 1;
    }
    i < lb
}

/// No text comes before itself.
pub proof fn lemma_text_lt_irreflexive(a: Seq<char>, i: int)
    requires
        0 <= i,
    ensures
        !text_lt_from(a, a, i),
    decreases a.len() - i,
{
    if i < a.len() {
        lemma_text_lt_irreflexive(a, i + 1);
    }
}

/// The dictionary order is transitive.
pub proof fn lemma_text_lt_transitive(a: Seq<char>, b: Seq<char>, c: Seq<char>, i: int)
    requires
        0 <= i,
        text_lt_from(a, b, i),
        text_lt_from(b, c, i),
    ensures
        text_lt_from(a, c, i),
    decreases a.len() - i,
{
    if i < a.len() && a[i] == b[i] && b[i] == c[i] {
        lemma_text_lt_transitive(a, b, c, i + 1);
    }
}

/// Two texts that agree below `i` are equal, or one comes before the other.
pub proof fn lemma_text_lt_total(a: Seq<char>, b: Seq<char>, i: int)
    requires
        0 <= i <= a.len(),
        i <= b.len(),
        forall|j: int| 0 <= j < i ==> a[j] == b[j],
    ensures
        a == b || text_lt_from(a, b, i) || text_lt_from(b, a, i),
    decreases a.len() - i,
{
    if i < a.len() && i < b.len() {
        if a[i] == b[i] {
            lemma_text_lt_total(a, b, i + 1);
        }
    } else if i == a.len() && i == b.len() {
        assert(a =~= b);
    }
}

/// The character that stands for the digit `d`.
pub open spec fn digit_char(d: int) -> char {
    if d == 0 {
        '0'
    } else if d == 1 {
        '1'
    } else if d == 2 {
        '2'
    } else if d == 3 {
        '3'
    } else if d == 4 {
        '4'
    } else if d == 5 {
        '5'
    } else if d == 6 {
        '6'
    } else if d == 7 {
        '7'
    } else if d == 8 {
        '8'
    } else {
        '9'
    }
}

/// The decimal numeral of `n`, without leading zeros.
pub open spec fn decimal_text(n: nat) -> Seq<char>
    decreases n,
{
    if n < 10 {
        seq![digit_char(n as int)]
    } else {
        decimal_text(n / 10).push(digit_char((n % 10) as int))
    }
}

fn digit_str(d: usize) -> (s: &'static str)
    requires
        d < 10,
    ensures
        s@ == seq![digit_char(d as int)],
{
    proof {
        reveal_strlit("0");
        reveal_strlit("1");
        reveal_strlit("2");
        reveal_strlit("3");
        reveal_strlit("4");
        reveal_strlit("5");
        reveal_strlit("6");
        reveal_strlit("7");
        reveal_strlit("8");
        reveal_strlit("9");
    }
    let s = if d == 0 {
        "0"
    } else if d == 1 {
        "1"
    } else if d == 2 {
        "2"
    } else if d == 3 {
        "3"
    } else if d == 4 {
        "4"
    } else if d == 5 {
        "5"
    } else if d == 6 {
        "6"
    } else if d == 7 {
        "7"
    } else if d == 8 {
        "8"
    } else {
        "9"
    };
    assert(s@ =~= seq![digit_char(d as int)]);
    s
}

/// Writes `n` as a decimal numeral.
pub fn decimal_string(n: usize) -> (s: String)
    ensures
        s@ == decimal_text(n as nat),
    decreases n,
{
    if n < 10 {
        String::from_str(digit_str(n))
    } else {
        let mut s = decimal_string(n / 10);
        s.append(digit_str(n % 10));
        assert(s@ =~= decimal_text(n as nat));
        s
    }
}

/// `text` between two backticks.
pub open spec fn backticked(text: Seq<char>) -> Seq<char> {
    "`"@ + text + "`"@
}

/// Puts `text` between two backticks.
pub fn backtick(text: &str) -> (s: String)
    ensures
        s@ == backticked(text@),
{
    let mut s = String::from_str("`");
    s.append(text);
    s.append("`");
    s
}

} // verus!
