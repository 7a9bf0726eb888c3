use vstd::prelude::*;
use vstd::string::StringExecFns;
use crate::wasm_type::WasmType;

verus! {

/// The text that `{:?}` writes for a string: the string between double quotes,
/// with the characters that cannot stand there as they are written as escapes.
pub uninterp spec fn quoted(s: Seq<char>) -> Seq<char>;

/// Formats `s` with `{:?}`, that is with `<str as Debug>::fmt`, whose result
/// depends on the characters of `s` alone. Nothing is claimed of it but that
/// it is the text named [`quoted`].
#[verifier::external_body]
pub(crate) fn quote(s: &str) -> (text: String)
    ensures
        text@ == quoted(s@),
{
    format!("{:?}", s)
}

/// The variant names of `types`, separated by a comma and a space.
pub open spec fn names_joined(types: Seq<WasmType>) -> Seq<char>
    decreases types.len(),
{
    if types.len() == 0 {
        Seq::empty()
    } else if types.len() == 1 {
        types[0].variant_name()
    } else {
        names_joined(types.drop_last()) + ", "@ + types.last().variant_name()
    }
}

/// A list of types as it is written in a definition: `[I32, I64]`.
pub open spec fn type_list_text(types: Seq<WasmType>) -> Seq<char> {
    "["@ + names_joined(types) + "]"@
}

/// A function import as it is written in a diagnostic, given its namespace and
/// its name as they are to be written.
pub open spec fn func_import_text(
    namespace: Seq<char>,
    name: Seq<char>,
    params: Seq<WasmType>,
    result: Seq<WasmType>,
) -> Seq<char> {
    "Func { namespace: "@ + namespace + ", name: "@ + name + ", params: "@ + type_list_text(params)
        + ", result: "@ + type_list_text(result) + " }"@
}

/// A global import as it is written in a diagnostic.
pub open spec fn global_import_text(
    namespace: Seq<char>,
    name: Seq<char>,
    var_type: WasmType,
) -> Seq<char> {
    "Global { namespace: "@ + namespace + ", name: "@ + name + ", var_type: "@
        + var_type.variant_name() + " }"@
}

/// A function export as it is written in a diagnostic.
pub open spec fn func_export_text(
    name: Seq<char>,
    params: Seq<WasmType>,
    result: Seq<WasmType>,
) -> Seq<char> {
    "Func { name: "@ + name + ", params: "@ + type_list_text(params) + ", result: "@
        + type_list_text(result) + " }"@
}

/// A global export as it is written in a diagnostic.
pub open spec fn global_export_text(name: Seq<char>, var_type: WasmType) -> Seq<char> {
    "Global { name: "@ + name + ", var_type: "@ + var_type.variant_name() + " }"@
}

/// The report of two differing definitions of one import.
pub open spec fn import_conflict_text(
    namespace: Seq<char>,
    name: Seq<char>,
    stored: Seq<char>,
    incoming: Seq<char>,
) -> Seq<char> {
    "Conflict detected: the import \""@ + namespace + "\" \""@ + name
        + "\" was found but the definitions were different: "@ + stored + " "@ + incoming
}

/// The report of two differing definitions of one export.
pub open spec fn export_conflict_text(
    name: Seq<char>,
    stored: Seq<char>,
    incoming: Seq<char>,
) -> Seq<char> {
    "Conflict detected: the key "@ + name
        + " was found in exports but the definitions were different: "@ + stored + " "@ + incoming
}

/// The variant name of `t`.
pub fn variant_name(t: WasmType) -> (name: &'static str)
    ensures
        name@ == t.variant_name(),
{
    match t {
        WasmType::I32 => "I32",
        WasmType::I64 => "I64",
        WasmType::F32 => "F32",
        WasmType::F64 => "F64",
    }
}

/// Writes out a list of types between square brackets.
pub fn render_type_list(types: &Vec<WasmType>) -> (text: String)
    ensures
        text@ == type_list_text(types@),
{
    let mut text = String::from_str("[");
    let mut i: usize = 0;
    while i < types.len()
        invariant
            i <= types.len(),
            text@ == "["@ + names_joined(types@.take(i as int)),
        decreases types.len() - i,
    {
        if i > 0 {
            text.append(", ");
        }
        text.append(variant_name(types[i]));
        proof {
            let done = types@.take(i as int);
            let next = types@.take(i + 1);
            assert(next.drop_last() =~= done);
        }
        i += 1;
    }
    assert(types@.take(i as int) =~= types@);
    text.append("]");
    text
}

/// Writes out a function import; the namespace and the name are given as they
/// are to stand in the text.
pub fn render_func_import(
    namespace: &str,
    name: &str,
    params: &Vec<WasmType>,
    result: &Vec<WasmType>,
) -> (text: String)
    ensures
        text@ == func_import_text(namespace@, name@, params@, result@),
{
    let mut text = String::from_str("Func { namespace: ");
    text.append(namespace);
    text.append(", name: ");
    text.append(name);
    text.append(", params: ");
    text.append(render_type_list(params).as_str());
    text.append(", result: ");
    text.append(render_type_list(result).as_str());
    text.append(" }");
    text
}

/// Writes out a global import.
pub fn render_global_import(namespace: &str, name: &str, var_type: WasmType) -> (text: String)
    ensures
        text@ == global_import_text(namespace@, name@, var_type),
{
    let mut text = String::from_str("Global { namespace: ");
    text.append(namespace);
    text.append(", name: ");
    text.append(name);
    text.append(", var_type: ");
    text.append(variant_name(var_type));
    text.append(" }");
    text
}

/// Writes out a function export.
pub fn render_func_export(
    name: &str,
    params: &Vec<WasmType>,
    result: &Vec<WasmType>,
) -> (text: String)
    ensures
        text@ == func_export_text(name@, params@, result@),
{
    let mut text = String::from_str("Func { name: ");
    text.append(name);
    text.append(", params: ");
    text.append(render_type_list(params).as_str());
    text.append(", result: ");
    text.append(render_type_list(result).as_str());
    text.append(" }");
    text
}

/// Writes out a global export.
pub fn render_global_export(name: &str, var_type: WasmType) -> (text: String)
    ensures
        text@ == global_export_text(name@, var_type),
{
    let mut text = String::from_str("Global { name: ");
    text.append(name);
    text.append(", var_type: ");
    text.append(variant_name(var_type));
    text.append(" }");
    text
}

/// Reports that the import `namespace` `name` is defined in two ways, and
/// gives both definitions.
pub fn import_conflict_message(
    namespace: &str,
    name: &str,
    stored: &str,
    incoming: &str,
) -> (message: String)
    ensures
        message@ == import_conflict_text(namespace@, name@, stored@, incoming@),
{
    let mut message = String::from_str("Conflict detected: the import \"");
    message.append(namespace);
    message.append("\" \"");
    message.append(name);
    message.append("\" was found but the definitions were different: ");
    message.append(stored);
    message.append(" ");
    message.append(incoming);
    message
}

/// Reports that the export `name` is defined in two ways, and gives both
/// definitions.
pub fn export_conflict_message(name: &str, stored: &str, incoming: &str) -> (message: String)
    ensures
        message@ == export_conflict_text(name@, stored@, incoming@),
{
    let mut message = String::from_str("Conflict detected: the key ");
    message.append(name);
    message.append(" was found in exports but the definitions were different: ");
    message.append(stored);
    message.append(" ");
    message.append(incoming);
    message
}

} // verus!
