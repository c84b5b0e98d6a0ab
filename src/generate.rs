//! The generated source text: one constant array of asset records.
use vstd::prelude::*;

verus! {

/// The Rust string literal that `proc_macro2::Literal::string` writes for a
/// string without NUL characters: quoted, with the characters that need it
/// escaped. proc-macro2 writes it either with its own escaper or with the
/// compiler's, as the process decides; the two differ only on a NUL, so for
/// text without one the literal depends on the text alone.
pub uninterp spec fn string_literal(s: Seq<char>) -> Seq<char>;

/// Whether a text holds a NUL character.
pub open spec fn has_nul(s: Seq<char>) -> bool {
    exists|i: int| 0 <= i < s.len() && s[i] == '\0'
}

/// Whether a text holds a NUL character.
pub fn holds_nul(s: &str) -> (r: bool)
    ensures
        r == has_nul(s@),
{
    let n = s.unicode_len();
    let mut i: usize = 0;
    while i < n
        invariant
            n == s@.len(),
            i <= n,
            forall|k: int| 0 <= k < i ==> s@[k] != '\0',
        decreases n - i,
    {
        if s.get_char(i) == '\0' {
            return true;
        }
        i += 1;
    }
    false
}

/// Relies on `proc_macro2::Literal::string`, and on the literal's text, for
/// text without NUL characters.
#[verifier::external_body]
pub(crate) fn quote_str(s: &str) -> (r: String)
    requires
        !has_nul(s@),
    ensures
        r@ == string_literal(s@),
{
    proc_macro2::Literal::string(s).to_string()
}

/// The decimal digits, in order.
pub open spec fn digits() -> Seq<char> {
    seq!['0', '1', '2', '3', '4', '5', '6', '7', '8', '9']
}

/// A natural number written in decimal, without leading zeros.
pub open spec fn decimal(n: nat) -> Seq<char>
    decreases n,
{
    if n < 10 {
        seq![digits()[n as int]]
    } else {
        decimal(n / 10).push(digits()[(n % 10) as int])
    }
}

/// Writes a number in decimal.
pub fn decimal_text(n: usize) -> (r: String)
    ensures
        r@ == decimal(n as nat),
    decreases n,
{
    let table = "0123456789";
    proof {
        reveal_strlit("0123456789");
        assert(table@ =~= digits());
    }
    if n < 10 {
        let d = table.substring_char(n, n + 1);
        proof {
            assert(d@ =~= seq![digits()[n as int]]);
        }
        String::from_str(d)
    } else {
        let mut out = decimal_text(n / 10);
        let d = table.substring_char(n % 10, n % 10 + 1);
        out.append(d);
        proof {
            assert(d@ =~= seq![digits()[(n % 10) as int]]);
            assert(out@ =~= decimal(n as nat));
        }
        out
    }
}

/// Whether a character has the Unicode property `XID_Start`.
pub uninterp spec fn xid_start(c: char) -> bool;

/// Whether a character has the Unicode property `XID_Continue`.
pub uninterp spec fn xid_continue(c: char) -> bool;

/// Relies on `unicode_ident::is_xid_start`: the Unicode property, by the
/// character alone.
#[verifier::external_body]
fn is_xid_start(c: char) -> (r: bool)
    ensures
        r == xid_start(c),
{
    unicode_ident::is_xid_start(c)
}

/// Relies on `unicode_ident::is_xid_continue`: the Unicode property, by the
/// character alone.
#[verifier::external_body]
fn is_xid_continue(c: char) -> (r: bool)
    ensures
        r == xid_continue(c),
{
    unicode_ident::is_xid_continue(c)
}

/// Whether a character may start an identifier.
pub open spec fn ident_start(c: char) -> bool {
    c == '_' || xid_start(c)
}

/// Whether a character may continue an identifier.
pub open spec fn ident_continue(c: char) -> bool {
    xid_continue(c)
}

/// Whether a name is a strict or reserved Rust keyword, which cannot name a
/// constant.
pub open spec fn is_keyword(s: Seq<char>) -> bool {
    ||| s == "as"@
    ||| s == "async"@
    ||| s == "await"@
    ||| s == "break"@
    ||| s == "const"@
    ||| s == "continue"@
    ||| s == "crate"@
    ||| s == "dyn"@
    ||| s == "else"@
    ||| s == "enum"@
    ||| s == "false"@
    ||| s == "fn"@
    ||| s == "for"@
    ||| s == "if"@
    ||| s == "impl"@
    ||| s == "in"@
    ||| s == "let"@
    ||| s == "loop"@
    ||| s == "match"@
    ||| s == "mod"@
    ||| s == "move"@
    ||| s == "mut"@
    ||| s == "pub"@
    ||| s == "ref"@
    ||| s == "return"@
    ||| s == "self"@
    ||| s == "Self"@
    ||| s == "static"@
    ||| s == "struct"@
    ||| s == "super"@
    ||| s == "trait"@
    ||| s == "true"@
    ||| s == "type"@
    ||| s == "unsafe"@
    ||| s == "use"@
    ||| s == "where"@
    ||| s == "while"@
    ||| s == "abstract"@
    ||| s == "become"@
    ||| s == "box"@
    ||| s == "do"@
    ||| s == "final"@
    ||| s == "gen"@
    ||| s == "macro"@
    ||| s == "override"@
    ||| s == "priv"@
    ||| s == "try"@
    ||| s == "typeof"@
    ||| s == "unsized"@
    ||| s == "virtual"@
    ||| s == "yield"@
    ||| s == seq!['e', 'x', 't', 'e', 'r', 'n']
}

/// Whether two texts are equal.
pub fn same_text(a: &str, b: &str) -> (r: bool)
    ensures
        r == (a@ == b@),
{
    let n = a.unicode_len();
    if n != b.unicode_len() {
        return false;
    }
    let mut i: usize = 0;
    while i < n
        invariant
            n == a@.len(),
            n == b@.len(),
            i <= n,
            a@.take(i as int) == b@.take(i as int),
        decreases n - i,
    {
        if a.get_char(i) != b.get_char(i) {
            assert(a@[i as int] != b@[i as int]);
            return false;
        }
        assert(a@.take(i + 1) =~= a@.take(i as int).push(a@[i as int]));
        assert(b@.take(i + 1) =~= b@.take(i as int).push(b@[i as int]));
        i += 1;
    }
    assert(a@.take(n as int) =~= a@);
    assert(b@.take(n as int) =~= b@);
    true
}

/// Whether a text spells a word given as its characters.
fn spells(s: &str, word: &Vec<char>) -> (r: bool)
    ensures
        r == (s@ == word@),
{
    let n = s.unicode_len();
    if n != word.len() {
        return false;
    }
    let mut i: usize = 0;
    while i < n
        invariant
            n == s@.len(),
            n == word@.len(),
            i <= n,
            s@.take(i as int) == word@.take(i as int),
        decreases n - i,
    {
        if s.get_char(i) != word[i] {
            assert(s@[i as int] != word@[i as int]);
            return false;
        }
        assert(s@.take(i + 1) =~= s@.take(i as int).push(s@[i as int]));
        assert(word@.take(i + 1) =~= word@.take(i as int).push(word@[i as int]));
        i += 1;
    }
    assert(s@.take(n as int) =~= s@);
    assert(word@.take(n as int) =~= word@);
    true
}

/// Whether a name is a strict or reserved Rust keyword.
pub fn is_keyword_text(s: &str) -> (r: bool)
    ensures
        r == is_keyword(s@),
{
    let foreign = vec!['e', 'x', 't', 'e', 'r', 'n'];
    proof {
        assert(foreign@ =~= seq!['e', 'x', 't', 'e', 'r', 'n']);
    }
    same_text(s, "as") ||
        same_text(s, "async") ||
        same_text(s, "await") ||
        same_text(s, "break") ||
        same_text(s, "const") ||
        same_text(s, "continue") ||
        same_text(s, "crate") ||
        same_text(s, "dyn") ||
        same_text(s, "else") ||
        same_text(s, "enum") ||
        same_text(s, "false") ||
        same_text(s, "fn") ||
        same_text(s, "for") ||
        same_text(s, "if") ||
        same_text(s, "impl") ||
        same_text(s, "in") ||
        same_text(s, "let") ||
        same_text(s, "loop") ||
        same_text(s, "match") ||
        same_text(s, "mod") ||
        same_text(s, "move") ||
        same_text(s, "mut") ||
        same_text(s, "pub") ||
        same_text(s, "ref") ||
        same_text(s, "return") ||
        same_text(s, "self") ||
        same_text(s, "Self") ||
        same_text(s, "static") ||
        same_text(s, "struct") ||
        same_text(s, "super") ||
        same_text(s, "trait") ||
        same_text(s, "true") ||
        same_text(s, "type") ||
        same_text(s, "unsafe") ||
        same_text(s, "use") ||
        same_text(s, "where") ||
        same_text(s, "while") ||
        same_text(s, "abstract") ||
        same_text(s, "become") ||
        same_text(s, "box") ||
        same_text(s, "do") ||
        same_text(s, "final") ||
        same_text(s, "gen") ||
        same_text(s, "macro") ||
        same_text(s, "override") ||
        same_text(s, "priv") ||
        same_text(s, "try") ||
        same_text(s, "typeof") ||
        same_text(s, "unsized") ||
        same_text(s, "virtual") ||
        same_text(s, "yield") ||
        spells(s, &foreign)
}

/// Whether a name is a Rust identifier: a `_` or an `XID_Start` character,
/// then `XID_Continue` characters, and no keyword.
pub open spec fn is_identifier(s: Seq<char>) -> bool {
    &&& !is_keyword(s)
    &&& s.len() > 0
    &&& ident_start(s[0])
    &&& forall|i: int| 1 <= i < s.len() ==> #[trigger] ident_continue(s[i])
}

/// Whether a name is a Rust identifier, fit to name the generated constant.
pub fn is_identifier_text(s: &str) -> (r: bool)
    ensures
        r == is_identifier(s@),
{
    if is_keyword_text(s) {
        return false;
    }
    let n = s.unicode_len();
    if n == 0 {
        return false;
    }
    let first = s.get_char(0);
    if !(first == '_' || is_xid_start(first)) {
        return false;
    }
    let mut i: usize = 1;
    while i < n
        invariant
            n == s@.len(),
            1 <= i <= n,
            forall|k: int| 1 <= k < i ==> #[trigger] ident_continue(s@[k]),
        decreases n - i,
    {
        let c = s.get_char(i);
        if !is_xid_continue(c) {
            assert(!ident_continue(s@[i as int]));
            return false;
        }
        i += 1;
    }
    true
}

/// Items written one after another with `, ` between each two.
pub open spec fn comma_joined(items: Seq<Seq<char>>) -> Seq<char>
    decreases items.len(),
{
    if items.len() == 0 {
        Seq::empty()
    } else if items.len() == 1 {
        items[0]
    } else {
        comma_joined(items.drop_last()) + seq![',', ' '] + items.last()
    }
}

/// The declaration `const NAME: [TYPE; N] = [ITEMS];`, with the items
/// separated by `, `.
pub open spec fn const_text(ident: Seq<char>, record_type: Seq<char>, items: Seq<Seq<char>>) -> Seq<
    char,
> {
    "const "@ + ident + ": ["@ + record_type + "; "@ + decimal(items.len()) + "] = ["@
        + comma_joined(items) + "];"@
}

/// One record of a plain asset array, from the literals of its URI and of
/// its file's path.
pub open spec fn asset_text(uri_literal: Seq<char>, path_literal: Seq<char>) -> Seq<char> {
    "Asset { uri: "@ + uri_literal + ", data: include_bytes!("@ + path_literal + ") }"@
}

/// An optional embedded payload: `Some(include_bytes!(PATH))` or `None`.
pub open spec fn optional_payload_text(path_literal: Option<Seq<char>>) -> Seq<char> {
    match path_literal {
        Some(p) => "Some(include_bytes!("@ + p + "))"@,
        None => "None"@,
    }
}

/// One record of a web asset array. The MIME type is always `text/plain`.
pub open spec fn web_asset_text(
    uri_literal: Seq<char>,
    path_literal: Seq<char>,
    gz_literal: Option<Seq<char>>,
    br_literal: Option<Seq<char>>,
) -> Seq<char> {
    "WebAsset { uri: "@ + uri_literal + ", data: include_bytes!("@ + path_literal + "), data_gz: "@
        + optional_payload_text(gz_literal) + ", data_br: "@ + optional_payload_text(br_literal)
        + ", mime: \"text/plain\" }"@
}

/// Writes one record of a plain asset array.
pub fn asset_record(uri_literal: &str, path_literal: &str) -> (r: String)
    ensures
        r@ == asset_text(uri_literal@, path_literal@),
{
    let mut out = String::from_str("Asset { uri: ");
    out.append(uri_literal);
    out.append(", data: include_bytes!(");
    out.append(path_literal);
    out.append(") }");
    proof {
        assert(out@ =~= asset_text(uri_literal@, path_literal@));
    }
    out
}

/// Writes an optional embedded payload.
pub fn optional_payload(path_literal: Option<&str>) -> (r: String)
    ensures
        r@ == optional_payload_text(
            match path_literal {
                Some(p) => Some(p@),
                None => None,
            },
        ),
{
    match path_literal {
        Some(p) => {
            let mut out = String::from_str("Some(include_bytes!(");
            out.append(p);
            out.append("))");
            proof {
                assert(out@ =~= "Some(include_bytes!("@ + p@ + "))"@);
            }
            out
        },
        None => String::from_str("None"),
    }
}

/// Writes one record of a web asset array.
pub fn web_asset_record(
    uri_literal: &str,
    path_literal: &str,
    gz_literal: Option<&str>,
    br_literal: Option<&str>,
) -> (r: String)
    ensures
        r@ == web_asset_text(
            uri_literal@,
            path_literal@,
            match gz_literal {
                Some(p) => Some(p@),
                None => None,
            },
            match br_literal {
                Some(p) => Some(p@),
                None => None,
            },
        ),
{
    let gz = optional_payload(gz_literal);
    let br = optional_payload(br_literal);
    let mut out = String::from_str("WebAsset { uri: ");
    out.append(uri_literal);
    out.append(", data: include_bytes!(");
    out.append(path_literal);
    out.append("), data_gz: ");
    out.append(gz.as_str());
    out.append(", data_br: ");
    out.append(br.as_str());
    out.append(", mime: \"text/plain\" }");
    proof {
        assert(out@ =~= web_asset_text(
            uri_literal@,
            path_literal@,
            match gz_literal {
                Some(p) => Some(p@),
                None => None,
            },
            match br_literal {
                Some(p) => Some(p@),
                None => None,
            },
        ));
    }
    out
}

/// Writes `const NAME: [TYPE; N] = [ITEMS];` for the given records.
pub fn const_declaration(ident: &str, record_type: &str, records: &Vec<String>) -> (r: String)
    ensures
        r@ == const_text(ident@, record_type@, crate::path::views(records@)),
{
    let mut items = String::new();
    let mut i: usize = 0;
    while i < records.len()
        invariant
            i <= records.len(),
            items@ == comma_joined(crate::path::views(records@).take(i as int)),
        decreases records.len() - i,
    {
        proof {
            assert(crate::path::views(records@).take(i + 1).drop_last() =~= crate::path::views(
                records@,
            ).take(i as int));
        }
        if i > 0 {
            items.append(", ");
            proof {
                reveal_strlit(", ");
            }
        }
        items.append(records[i].as_str());
        proof {
            if i == 0 {
                assert(items@ =~= comma_joined(crate::path::views(records@).take(1)));
            } else {
                assert(items@ =~= comma_joined(crate::path::views(records@).take(i + 1)));
            }
        }
        i += 1;
    }
    proof {
        assert(crate::path::views(records@).take(records.len() as int) =~= crate::path::views(
            records@,
        ));
    }
    let count = decimal_text(records.len());
    let mut out = String::from_str("const ");
    out.append(ident);
    out.append(": [");
    out.append(record_type);
    out.append("; ");
    out.append(count.as_str());
    out.append("] = [");
    out.append(items.as_str());
    out.append("];");
    proof {
        assert(out@ =~= const_text(ident@, record_type@, crate::path::views(records@)));
    }
    out
}

} // verus!
