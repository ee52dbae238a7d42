//! The text of one declaration: the constant's identifier, its type, and the
//! directive that embeds the file.

use vstd::prelude::*;
use vstd::string::*;

verus! {

/// How a file is embedded: as text, or as a sequence of bytes.
#[derive(Clone, Copy, Debug, PartialEq, Eq, Structural)]
pub enum ContentKind {
    Text,
    Binary,
}

/// The upper-case form of `text`, as `str::to_uppercase` gives it.
pub uninterp spec fn uppercased(text: Seq<char>) -> Seq<char>;

/// `c`, or an underscore where `c` is a path separator or a dot.
pub open spec fn sanitized_char(c: char) -> char {
    if c == '/' || c == '.' {
        '_'
    } else {
        c
    }
}

/// `text` with every path separator and every dot replaced by an underscore.
pub open spec fn sanitized(text: Seq<char>) -> Seq<char> {
    text.map_values(|c: char| sanitized_char(c))
}

/// The identifier derived from a virtual path: separators and dots become
/// underscores, then the whole is put in upper case.
pub open spec fn identifier_text(virtual_path: Seq<char>) -> Seq<char> {
    uppercased(sanitized(virtual_path))
}

/// The type of the constant that embeds a file of kind `kind`.
pub open spec fn element_type_text(kind: ContentKind) -> Seq<char> {
    match kind {
        ContentKind::Text => "&str"@,
        ContentKind::Binary => "&[u8]"@,
    }
}

/// The directive that embeds a file of kind `kind`.
pub open spec fn embed_directive_text(kind: ContentKind) -> Seq<char> {
    match kind {
        ContentKind::Text => "include_str!"@,
        ContentKind::Binary => "include_bytes!"@,
    }
}

/// The declaration of the constant `FILE_` + `identifier`, which embeds the
/// file at `reference` as `kind` says.
pub open spec fn declaration_text(
    identifier: Seq<char>,
    reference: Seq<char>,
    kind: ContentKind,
) -> Seq<char> {
    "pub const FILE_"@ + identifier + ": "@ + element_type_text(kind) + " = "@
        + embed_directive_text(kind) + "(\""@ + reference + "\");"@
}

/// All of `parts`, one after the other.
pub open spec fn concat(parts: Seq<Seq<char>>) -> Seq<char>
    decreases parts.len(),
{
    if parts.len() == 0 {
        Seq::empty()
    } else {
        concat(parts.drop_last()) + parts.last()
    }
}

/// The module `files` around `declarations`, in their order.
pub open spec fn module_text(declarations: Seq<Seq<char>>) -> Seq<char> {
    "pub mod files {"@ + concat(declarations) + "}"@
}

/// One more part adds its text at the end.
pub proof fn lemma_concat_push(parts: Seq<Seq<char>>, part: Seq<char>)
    ensures
        concat(parts.push(part)) == concat(parts) + part,
{
    assert(parts.push(part).drop_last() =~= parts);
}

/// Calls `str::to_uppercase` of std: the result is the upper-case form of
/// `text`, which depends on `text` alone.
#[verifier::external_body]
fn to_upper(text: &str) -> (upper: String)
    ensures
        upper@ == uppercased(text@),
{
    text.to_uppercase()
}

/// `text` with every path separator and every dot replaced by an underscore.
pub fn sanitize(text: &str) -> (clean: String)
    ensures
        clean@ == sanitized(text@),
{
    let n: usize = text.unicode_len();
    let mut clean = String::new();
    let mut i: usize = 0;
    while i < n
        invariant
            i <= n,
            n == text@.len(),
            clean@ == sanitized(text@.take(i as int)),
        decreases n - i,
    {
        let c = text.get_char(i);
        if c == '/' || c == '.' {
            proof {
                reveal_strlit("_");
            }
            clean.append("_");
        } else {
            clean.append(text.substring_char(i, i + 1));
        }
        assert(clean@ =~= sanitized(text@.take(i + 1)));
        i += 1;
    }
    assert(text@.take(n as int) =~= text@);
    clean
}

/// The identifier that a virtual path derives.
pub fn identifier(virtual_path: &str) -> (name: String)
    ensures
        name@ == identifier_text(virtual_path@),
{
    let clean = sanitize(virtual_path);
    to_upper(clean.as_str())
}

/// The type of the constant that embeds a file of kind `kind`.
pub fn element_type(kind: ContentKind) -> (name: &'static str)
    ensures
        name@ == element_type_text(kind),
{
    match kind {
        ContentKind::Text => "&str",
        ContentKind::Binary => "&[u8]",
    }
}

/// The directive that embeds a file of kind `kind`.
pub fn embed_directive(kind: ContentKind) -> (name: &'static str)
    ensures
        name@ == embed_directive_text(kind),
{
    match kind {
        ContentKind::Text => "include_str!",
        ContentKind::Binary => "include_bytes!",
    }
}

/// The declaration of the constant `FILE_` + `identifier`, which embeds the
/// file at `reference` as `kind` says.
pub fn declaration(identifier: &str, reference: &str, kind: ContentKind) -> (line: String)
    ensures
        line@ == declaration_text(identifier@, reference@, kind),
{
    let mut line = String::from_str("pub const FILE_");
    line.append(identifier);
    line.append(": ");
    line.append(element_type(kind));
    line.append(" = ");
    line.append(embed_directive(kind));
    line.append("(\"");
    line.append(reference);
    line.append("\");");
    line
}

} // verus!
