//! What the parser would have accepted at a position, and how a failed
//! expectation lists it.

use crate::symbol::{symbol_text, Symbol, SymbolInfo, SymbolTable};
use crate::text::{backtick, backticked, lemma_text_lt_total, lemma_text_lt_transitive, or_list,
    or_list_text, str_lt, str_views, text_lt};
use crate::token::{kind_text, TokenKind};
use vstd::prelude::*;
use vstd::string::*;

verus! {

/// One thing that would have been accepted: an exact token, a keyword, or a
/// category of tokens.
#[derive(Clone, Copy, Debug, PartialEq, Eq, Hash, Structural)]
pub enum ExpectedToken {
    Token(TokenKind),
    Keyword(Symbol),
    Lit,
    StrLit,
    VersionNumber,
    Ident,
    Path,
    ElementaryType,
}

/// How an expectation is written in a message.
pub open spec fn expected_text(e: ExpectedToken, table: Seq<SymbolInfo>) -> Seq<char> {
    match e {
        ExpectedToken::Token(kind) => backticked(kind_text(kind, table)),
        ExpectedToken::Keyword(kw) => backticked(symbol_text(table, kw)),
        ExpectedToken::Lit => "literal"@,
        ExpectedToken::StrLit => "string literal"@,
        ExpectedToken::VersionNumber => "`*`, `X`, `x`, decimal integer literal"@,
        ExpectedToken::Ident => "identifier"@,
        ExpectedToken::Path => "path"@,
        ExpectedToken::ElementaryType => "elementary type name"@,
    }
}

/// Whether the expectation is a keyword that the found identifier spells.
pub open spec fn is_ident_eq_keyword(found: TokenKind, e: ExpectedToken) -> bool {
    match (found, e) {
        (TokenKind::Ident(current), ExpectedToken::Keyword(suggested)) => current == suggested,
        _ => false,
    }
}

/// Whether an expectation is worth naming when `found` was met instead: it is
/// not written like the found token, and it is not a keyword that the found
/// identifier spells.
pub open spec fn is_suggestion(found: TokenKind, e: ExpectedToken, table: Seq<SymbolInfo>) -> bool {
    expected_text(e, table) != backticked(kind_text(found, table)) && !is_ident_eq_keyword(
        found,
        e,
    )
}

/// The explicit sets of a failed expectation followed by what the probes
/// since the last advance have registered.
pub open spec fn merged_expectations(
    edible: Seq<TokenKind>,
    inedible: Seq<TokenKind>,
    registered: Seq<ExpectedToken>,
) -> Seq<ExpectedToken> {
    Seq::new(edible.len(), |i: int| ExpectedToken::Token(edible[i])) + Seq::new(
        inedible.len(),
        |i: int| ExpectedToken::Token(inedible[i]),
    ) + registered
}

/// Whether `text` is how some suggestion among `merged` is written.
pub open spec fn is_candidate(
    text: Seq<char>,
    merged: Seq<ExpectedToken>,
    found: TokenKind,
    table: Seq<SymbolInfo>,
) -> bool {
    exists|i: int|
        0 <= i < merged.len() && is_suggestion(found, #[trigger] merged[i], table)
            && expected_text(merged[i], table) == text
}

/// Whether the texts stand in dictionary order, none of them twice.
pub open spec fn strictly_sorted(texts: Seq<Seq<char>>) -> bool {
    forall|i: int, j: int| 0 <= i < j < texts.len() ==> text_lt(#[trigger] texts[i], #[trigger] texts[j])
}

/// Whether `texts` is the list of candidates that a failed expectation names:
/// the suggestions among `merged` as they are written, each once, in
/// dictionary order.
pub open spec fn is_candidate_list(
    texts: Seq<Seq<char>>,
    merged: Seq<ExpectedToken>,
    found: TokenKind,
    table: Seq<SymbolInfo>,
) -> bool {
    &&& strictly_sorted(texts)
    &&& forall|t: Seq<char>| #[trigger] texts.contains(t) <==> is_candidate(t, merged, found, table)
}

/// The texts of a list of strings.
pub open spec fn string_views(list: Seq<String>) -> Seq<Seq<char>> {
    Seq::new(list.len(), |i: int| list[i]@)
}

/// Two sorted lists without repetition that hold the same texts are the same
/// list.
pub proof fn lemma_strictly_sorted_unique(a: Seq<Seq<char>>, b: Seq<Seq<char>>)
    requires
        strictly_sorted(a),
        strictly_sorted(b),
        forall|t: Seq<char>| a.contains(t) <==> b.contains(t),
    ensures
        a == b,
    decreases a.len(),
{
    if a.len() == 0 {
        if b.len() > 0 {
            assert(b.contains(b[0]));
            assert(a.contains(b[0]));
        }
        assert(a =~= b);
    } else if b.len() == 0 {
        assert(a.contains(a[0]));
        assert(b.contains(a[0]));
    } else {
        let la = a.len() - 1;
        let lb = b.len() - 1;
        // The greatest text of each list is in the other, so they are equal.
        assert(a.contains(a[la]));
        assert(b.contains(b[lb]));
        let i = choose|i: int| 0 <= i < b.len() && b[i] == a[la];
        let j = choose|j: int| 0 <= j < a.len() && a[j] == b[lb];
        if a[la] != b[lb] {
            lemma_text_lt_total(a[la], b[lb], 0);
            if text_lt(a[la], b[lb]) {
                assert(j < la);
                assert(text_lt(a[j], a[la]));
                lemma_text_lt_transitive(a[la], b[lb], a[la], 0);
                crate::text::lemma_text_lt_irreflexive(a[la], 0);
            } else {
                assert(i < lb);
                assert(text_lt(b[i], b[lb]));
                lemma_text_lt_transitive(b[lb], a[la], b[lb], 0);
                crate::text::lemma_text_lt_irreflexive(b[lb], 0);
            }
        }
        let a0 = a.drop_last();
        let b0 = b.drop_last();
        assert forall|t: Seq<char>| a0.contains(t) <==> b0.contains(t) by {
            if a0.contains(t) {
                let k = choose|k: int| 0 <= k < a0.len() && a0[k] == t;
                assert(a[k] == t);
                assert(a.contains(t));
                assert(text_lt(a[k], a[la]));
                let m = choose|m: int| 0 <= m < b.len() && b[m] == t;
                if m == lb {
                    crate::text::lemma_text_lt_irreflexive(t, 0);
                }
                assert(b0[m] == t);
            }
            if b0.contains(t) {
                let k = choose|k: int| 0 <= k < b0.len() && b0[k] == t;
                assert(b[k] == t);
                assert(b.contains(t));
                assert(text_lt(b[k], b[lb]));
                let m = choose|m: int| 0 <= m < a.len() && a[m] == t;
                if m == la {
                    crate::text::lemma_text_lt_irreflexive(t, 0);
                }
                assert(a0[m] == t);
            }
        }
        lemma_strictly_sorted_unique(a0, b0);
        assert(a =~= a0.push(a[la]));
        assert(b =~= b0.push(b[lb]));
    }
}

/// The list of candidates is determined by what was expected and what was
/// found: two lists that both qualify are equal.
pub proof fn lemma_candidate_list_unique(
    a: Seq<Seq<char>>,
    b: Seq<Seq<char>>,
    merged: Seq<ExpectedToken>,
    found: TokenKind,
    table: Seq<SymbolInfo>,
)
    requires
        is_candidate_list(a, merged, found, table),
        is_candidate_list(b, merged, found, table),
    ensures
        a == b,
{
    lemma_strictly_sorted_unique(a, b);
}

/// A sorted list with `t` put at its place, unless the list holds it
/// already.
pub open spec fn with_text(list: Seq<Seq<char>>, t: Seq<char>) -> Seq<Seq<char>>
    decreases list.len(),
{
    if list.len() == 0 {
        seq![t]
    } else if list.last() == t {
        list
    } else if text_lt(list.last(), t) {
        list.push(t)
    } else {
        with_text(list.drop_last(), t).push(list.last())
    }
}

/// Putting a text into a sorted list keeps the list sorted and adds nothing
/// but the text.
pub proof fn lemma_with_text(list: Seq<Seq<char>>, t: Seq<char>)
    requires
        strictly_sorted(list),
    ensures
        strictly_sorted(with_text(list, t)),
        forall|x: Seq<char>| #[trigger] with_text(list, t).contains(x) <==> (list.contains(x) || x == t),
    decreases list.len(),
{
    let out = with_text(list, t);
    if list.len() == 0 {
        assert(out[0] == t);
        assert forall|x: Seq<char>| #[trigger] out.contains(x) <==> (list.contains(x) || x == t) by {
            if out.contains(x) {
                let k = choose|k: int| 0 <= k < out.len() && out[k] == x;
                assert(out[k] == t);
            }
        }
    } else if list.last() == t {
        assert(list[list.len() - 1] == t);
    } else if text_lt(list.last(), t) {
        let n = list.len() as int;
        assert forall|i: int, j: int| 0 <= i < j < out.len() implies text_lt(
            #[trigger] out[i],
            #[trigger] out[j],
        ) by {
            if j == n {
                if i < n - 1 {
                    assert(text_lt(list[i], list[n - 1]));
                    lemma_text_lt_transitive(list[i], list[n - 1], t, 0);
                }
            }
        }
        assert forall|x: Seq<char>| #[trigger] out.contains(x) <==> (list.contains(x) || x == t) by {
            if out.contains(x) {
                let k = choose|k: int| 0 <= k < out.len() && out[k] == x;
                if k < n {
                    assert(list[k] == x);
                }
            }
            if list.contains(x) {
                let k = choose|k: int| 0 <= k < list.len() && list[k] == x;
                assert(out[k] == x);
            }
            if x == t {
                assert(out[n] == x);
            }
        }
    } else {
        let n = list.len() as int;
        let front = list.drop_last();
        let last = list.last();
        assert forall|i: int, j: int| 0 <= i < j < front.len() implies text_lt(
            #[trigger] front[i],
            #[trigger] front[j],
        ) by {
            assert(front[i] == list[i] && front[j] == list[j]);
        }
        lemma_with_text(front, t);
        let inner = with_text(front, t);
        lemma_text_lt_total(t, last, 0);
        assert(text_lt(t, last));
        assert forall|i: int, j: int| 0 <= i < j < out.len() implies text_lt(
            #[trigger] out[i],
            #[trigger] out[j],
        ) by {
            if j == inner.len() {
                assert(inner.contains(inner[i]));
                if inner[i] != t {
                    let k = choose|k: int| 0 <= k < front.len() && front[k] == inner[i];
                    assert(list[k] == inner[i]);
                    assert(text_lt(list[k], list[n - 1]));
                }
            }
        }
        assert forall|x: Seq<char>| #[trigger] out.contains(x) <==> (list.contains(x) || x == t) by {
            if out.contains(x) {
                let k = choose|k: int| 0 <= k < out.len() && out[k] == x;
                if k < inner.len() {
                    assert(inner.contains(x));
                    if x != t {
                        let m = choose|m: int| 0 <= m < front.len() && front[m] == x;
                        assert(list[m] == x);
                    }
                } else {
                    assert(list[n - 1] == x);
                }
            }
            if list.contains(x) {
                let k = choose|k: int| 0 <= k < list.len() && list[k] == x;
                if k < n - 1 {
                    assert(front[k] == x);
                    assert(front.contains(x));
                    assert(inner.contains(x));
                    let m = choose|m: int| 0 <= m < inner.len() && inner[m] == x;
                    assert(out[m] == x);
                } else {
                    assert(out[inner.len() as int] == x);
                }
            }
            if x == t {
                assert(inner.contains(t));
                let m = choose|m: int| 0 <= m < inner.len() && inner[m] == t;
                assert(out[m] == x);
            }
        }
    }
}

/// The candidates among the first `n` of the expectations, in order.
pub open spec fn candidates_among(
    merged: Seq<ExpectedToken>,
    n: nat,
    found: TokenKind,
    table: Seq<SymbolInfo>,
) -> Seq<Seq<char>>
    decreases n,
{
    if n == 0 || n > merged.len() {
        Seq::empty()
    } else if is_suggestion(found, merged[n - 1], table) {
        with_text(
            candidates_among(merged, (n - 1) as nat, found, table),
            expected_text(merged[n - 1], table),
        )
    } else {
        candidates_among(merged, (n - 1) as nat, found, table)
    }
}

/// Whatever was expected and found, there is a list of candidates.
pub proof fn lemma_candidate_list_exists(
    merged: Seq<ExpectedToken>,
    n: nat,
    found: TokenKind,
    table: Seq<SymbolInfo>,
)
    requires
        n <= merged.len(),
    ensures
        is_candidate_list(
            candidates_among(merged, n, found, table),
            merged.take(n as int),
            found,
            table,
        ),
    decreases n,
{
    let list = candidates_among(merged, n, found, table);
    if n == 0 {
        assert forall|t: Seq<char>| #[trigger]
            list.contains(t) <==> is_candidate(t, merged.take(0), found, table) by {}
    } else {
        lemma_candidate_list_exists(merged, (n - 1) as nat, found, table);
        lemma_candidate_step(merged, n - 1, found, table);
        if is_suggestion(found, merged[n - 1], table) {
            lemma_with_text(
                candidates_among(merged, (n - 1) as nat, found, table),
                expected_text(merged[n - 1], table),
            );
        }
    }
}

/// Puts `s` at its place in a sorted list, unless the list holds it already.
pub fn insert_sorted(list: &mut Vec<String>, s: String)
    requires
        strictly_sorted(string_views(old(list)@)),
    ensures
        strictly_sorted(string_views(final(list)@)),
        forall|t: Seq<char>|
            #[trigger] string_views(final(list)@).contains(t) <==> (string_views(
                old(list)@,
            ).contains(t) || t == s@),
{
    let ghost before = string_views(list@);
    let mut i: usize = 0;
    while i < list.len() && str_lt(list[i].as_str(), s.as_str())
        invariant
            i <= list@.len(),
            list@ == old(list)@,
            before == string_views(list@),
            forall|j: int| 0 <= j < i ==> text_lt(#[trigger] before[j], s@),
        decreases list@.len() - i,
    {
        i = i + 1;
    }
    if i < list.len() && list[i] == s {
        assert(before[i as int] == s@);
        assert(before.contains(s@));
        return ;
    }
    list.insert(i, s);
    let ghost after = string_views(list@);
    assert(after =~= before.insert(i as int, s@));
    assert forall|a: int, b: int| 0 <= a < b < after.len() implies text_lt(
        #[trigger] after[a],
        #[trigger] after[b],
    ) by {
        if b < i {
            assert(after[a] == before[a] && after[b] == before[b]);
        } else if b == i {
            assert(after[a] == before[a]);
        } else if a == i {
            // s stands before what it did not come after.
            assert(after[b] == before[b - 1]);
            lemma_text_lt_total(s@, before[i as int], 0);
            if b - 1 > i {
                assert(text_lt(before[i as int], before[b - 1]));
                lemma_text_lt_transitive(s@, before[i as int], before[b - 1], 0);
            }
        } else if a < i {
            assert(after[a] == before[a] && after[b] == before[b - 1]);
        } else {
            assert(after[a] == before[a - 1] && after[b] == before[b - 1]);
        }
    }
    assert forall|t: Seq<char>| #[trigger] after.contains(t) <==> (before.contains(t) || t
        == s@) by {
        if after.contains(t) {
            let k = choose|k: int| 0 <= k < after.len() && after[k] == t;
            if k < i {
                assert(before[k] == t);
            } else if k > i {
                assert(before[k - 1] == t);
            }
        }
        if before.contains(t) {
            let k = choose|k: int| 0 <= k < before.len() && before[k] == t;
            if k < i {
                assert(after[k] == t);
            } else {
                assert(after[k + 1] == t);
            }
        }
        if t == s@ {
            assert(after[i as int] == t);
        }
    }
}

impl ExpectedToken {
    /// Writes the expectation as it appears in a message.
    pub fn render(&self, symbols: &SymbolTable) -> (s: String)
        ensures
            s@ == expected_text(*self, symbols@),
    {
        match self {
            ExpectedToken::Token(kind) => {
                let text = kind.render(symbols);
                backtick(text.as_str())
            },
            ExpectedToken::Keyword(kw) => backtick(symbols.text(*kw)),
            ExpectedToken::Lit => String::from_str("literal"),
            ExpectedToken::StrLit => String::from_str("string literal"),
            ExpectedToken::VersionNumber => String::from_str(
                "`*`, `X`, `x`, decimal integer literal",
            ),
            ExpectedToken::Ident => String::from_str("identifier"),
            ExpectedToken::Path => String::from_str("path"),
            ExpectedToken::ElementaryType => String::from_str("elementary type name"),
        }
    }

    /// Whether the expectation is the exact token `other`.
    pub fn eq_kind(&self, other: &TokenKind) -> (r: bool)
        ensures
            r == (*self == ExpectedToken::Token(*other)),
    {
        match self {
            ExpectedToken::Token(kind) => *kind == *other,
            _ => false,
        }
    }

    /// Whether the expectation is worth naming when `found` was met instead.
    pub fn is_suggestion(&self, found: &TokenKind, symbols: &SymbolTable) -> (r: bool)
        ensures
            r == is_suggestion(*found, *self, symbols@),
    {
        let spelled = match (found, self) {
            (TokenKind::Ident(current), ExpectedToken::Keyword(suggested)) => *current
                == *suggested,
            _ => false,
        };
        if spelled {
            return false;
        }
        let found_text = backtick(found.render(symbols).as_str());
        let text = self.render(symbols);
        !(text == found_text)
    }

    /// Joins a list of written expectations into one phrase.
    pub fn to_string_many(texts: &Vec<String>) -> (s: String)
        ensures
            s@ == or_list_text(string_views(texts@)),
    {
        let mut refs: Vec<&str> = Vec::new();
        let mut i: usize = 0;
        while i < texts.len()
            invariant
                i <= texts@.len(),
                refs@.len() == i,
                forall|j: int| 0 <= j < i ==> (#[trigger] refs@[j])@ == texts@[j]@,
            decreases texts@.len() - i,
        {
            refs.push(texts[i].as_str());
            i = i + 1;
        }
        let slice = refs.as_slice();
        assert(str_views(slice) =~= string_views(texts@));
        or_list(slice)
    }
}

/// Collects the explicit sets of a failed expectation and the registered
/// expectations into one list.
pub fn merge_expectations(
    edible: &[TokenKind],
    inedible: &[TokenKind],
    registered: &Vec<ExpectedToken>,
) -> (merged: Vec<ExpectedToken>)
    ensures
        merged@ == merged_expectations(edible@, inedible@, registered@),
{
    let mut merged: Vec<ExpectedToken> = Vec::new();
    let mut i: usize = 0;
    while i < edible.len()
        invariant
            i <= edible@.len(),
            merged@ == Seq::new(i as nat, |n: int| ExpectedToken::Token(edible@[n])),
        decreases edible@.len() - i,
    {
        merged.push(ExpectedToken::Token(edible[i]));
        i = i + 1;
        assert(merged@ =~= Seq::new(i as nat, |n: int| ExpectedToken::Token(edible@[n])));
    }
    let ghost first = merged@;
    let mut j: usize = 0;
    while j < inedible.len()
        invariant
            j <= inedible@.len(),
            merged@ == first + Seq::new(j as nat, |n: int| ExpectedToken::Token(inedible@[n])),
        decreases inedible@.len() - j,
    {
        merged.push(ExpectedToken::Token(inedible[j]));
        j = j + 1;
        assert(merged@ =~= first + Seq::new(
            j as nat,
            |n: int| ExpectedToken::Token(inedible@[n]),
        ));
    }
    let ghost second = merged@;
    let mut k: usize = 0;
    while k < registered.len()
        invariant
            k <= registered@.len(),
            merged@ == second + registered@.take(k as int),
        decreases registered@.len() - k,
    {
        merged.push(registered[k]);
        k = k + 1;
        assert(merged@ =~= second + registered@.take(k as int));
    }
    assert(registered@.take(k as int) =~= registered@);
    merged
}

/// Lists what a failed expectation names: the suggestions among the explicit
/// sets and the registered expectations, as they are written, each once, in
/// dictionary order.
pub fn candidate_texts(
    edible: &[TokenKind],
    inedible: &[TokenKind],
    registered: &Vec<ExpectedToken>,
    found: &TokenKind,
    symbols: &SymbolTable,
) -> (list: Vec<String>)
    ensures
        is_candidate_list(
            string_views(list@),
            merged_expectations(edible@, inedible@, registered@),
            *found,
            symbols@,
        ),
{
    let merged = merge_expectations(edible, inedible, registered);
    let mut list: Vec<String> = Vec::new();
    let mut i: usize = 0;
    while i < merged.len()
        invariant
            i <= merged@.len(),
            strictly_sorted(string_views(list@)),
            forall|t: Seq<char>| #[trigger]
                string_views(list@).contains(t) <==> is_candidate(
                    t,
                    merged@.take(i as int),
                    *found,
                    symbols@,
                ),
        decreases merged@.len() - i,
    {
        let e = merged[i];
        proof {
            lemma_candidate_step(merged@, i as int, *found, symbols@);
        }
        if e.is_suggestion(found, symbols) {
            insert_sorted(&mut list, e.render(symbols));
        }
        i = i + 1;
    }
    assert(merged@.take(i as int) =~= merged@);
    list
}

/// The candidates among the first `n + 1` expectations are those among the
/// first `n`, and the next one if it is a suggestion.
pub proof fn lemma_candidate_step(
    merged: Seq<ExpectedToken>,
    n: int,
    found: TokenKind,
    table: Seq<SymbolInfo>,
)
    requires
        0 <= n < merged.len(),
    ensures
        forall|t: Seq<char>|
            is_candidate(t, merged.take(n + 1), found, table) <==> (is_candidate(
                t,
                merged.take(n),
                found,
                table,
            ) || (is_suggestion(found, merged[n], table) && expected_text(merged[n], table)
                == t)),
{
    let shorter = merged.take(n);
    let longer = merged.take(n + 1);
    assert forall|t: Seq<char>|
        is_candidate(t, longer, found, table) <==> (is_candidate(t, shorter, found, table) || (
        is_suggestion(found, merged[n], table) && expected_text(merged[n], table) == t)) by {
        if is_candidate(t, longer, found, table) {
            let i = choose|i: int|
                0 <= i < longer.len() && is_suggestion(found, #[trigger] longer[i], table)
                    && expected_text(longer[i], table) == t;
            if i < n {
                assert(shorter[i] == longer[i]);
            } else {
                assert(longer[i] == merged[n]);
            }
        }
        if is_candidate(t, shorter, found, table) {
            let i = choose|i: int|
                0 <= i < shorter.len() && is_suggestion(found, #[trigger] shorter[i], table)
                    && expected_text(shorter[i], table) == t;
            assert(longer[i] == shorter[i]);
        }
        if is_suggestion(found, merged[n], table) && expected_text(merged[n], table) == t {
            assert(longer[n] == merged[n]);
        }
    }
}

} // verus!
