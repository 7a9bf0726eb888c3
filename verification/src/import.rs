use vstd::prelude::*;
use vstd::std_specs::cmp::PartialEqSpecImpl;
use vstd::string::StringExecFns;
use crate::keyed::Keyed;
use crate::text::{
    func_import_text, global_import_text, quote, quoted, render_func_import, render_global_import,
};
use crate::wasm_type::{same_types, WasmType};

verus! {

/// A binding that a module requires from its host.
#[derive(Debug, Eq)]
pub enum Import {
    Func { namespace: String, name: String, params: Vec<WasmType>, result: Vec<WasmType> },
    Global { namespace: String, name: String, var_type: WasmType },
}

/// What identifies an import: its namespace and its name.
pub type ImportKey = (Seq<char>, Seq<char>);

/// An [`Import`] as a mathematical value.
pub enum ImportView {
    Func { namespace: Seq<char>, name: Seq<char>, params: Seq<WasmType>, result: Seq<WasmType> },
    Global { namespace: Seq<char>, name: Seq<char>, var_type: WasmType },
}

impl Keyed for ImportView {
    type Key = ImportKey;

    open spec fn key(&self) -> ImportKey {
        match *self {
            ImportView::Func { namespace, name, .. } => (namespace, name),
            ImportView::Global { namespace, name, .. } => (namespace, name),
        }
    }
}

impl ImportView {
    /// The definition written out in full, as a diagnostic shows it.
    pub open spec fn rendering(self) -> Seq<char> {
        match self {
            ImportView::Func { namespace, name, params, result } => func_import_text(
                quoted(namespace),
                quoted(name),
                params,
                result,
            ),
            ImportView::Global { namespace, name, var_type } => global_import_text(
                quoted(namespace),
                quoted(name),
                var_type,
            ),
        }
    }
}

impl View for Import {
    type V = ImportView;

    open spec fn view(&self) -> ImportView {
        match *self {
            Import::Func { namespace, name, params, result } => ImportView::Func {
                namespace: namespace@,
                name: name@,
                params: params@,
                result: result@,
            },
            Import::Global { namespace, name, var_type } => ImportView::Global {
                namespace: namespace@,
                name: name@,
                var_type,
            },
        }
    }
}

/// The values of a list of imports, in the same order.
pub open spec fn import_views(list: Seq<Import>) -> Seq<ImportView> {
    Seq::new(list.len(), |i: int| list[i]@)
}

impl Import {
    /// The key under which a contract holds the import of this namespace and
    /// name.
    pub fn format_key(ns: &str, name: &str) -> (key: (String, String))
        ensures
            key.0@ == ns@,
            key.1@ == name@,
    {
        (String::from_str(ns), String::from_str(name))
    }

    /// The key under which a contract holds this import.
    pub fn get_key(&self) -> (key: (String, String))
        ensures
            key@ == self@.key(),
    {
        Self::format_key(self.namespace().as_str(), self.name().as_str())
    }

    /// The namespace that the binding is imported from.
    pub fn namespace(&self) -> (namespace: &String)
        ensures
            namespace@ == self@.key().0,
    {
        match self {
            Import::Func { namespace, .. } => namespace,
            Import::Global { namespace, .. } => namespace,
        }
    }

    /// The name of the binding within its namespace.
    pub fn name(&self) -> (name: &String)
        ensures
            name@ == self@.key().1,
    {
        match self {
            Import::Func { name, .. } => name,
            Import::Global { name, .. } => name,
        }
    }

    /// Writes the definition out in full.
    pub fn render(&self) -> (text: String)
        ensures
            text@ == self@.rendering(),
    {
        match self {
            Import::Func { namespace, name, params, result } => render_func_import(
                quote(namespace.as_str()).as_str(),
                quote(name.as_str()).as_str(),
                params,
                result,
            ),
            Import::Global { namespace, name, var_type } => render_global_import(
                quote(namespace.as_str()).as_str(),
                quote(name.as_str()).as_str(),
                *var_type,
            ),
        }
    }
}

impl Clone for Import {
    fn clone(&self) -> (copy: Self)
        ensures
            copy@ == self@,
    {
        match self {
            Import::Func { namespace, name, params, result } => Import::Func {
                namespace: namespace.clone(),
                name: name.clone(),
                params: params.clone(),
                result: result.clone(),
            },
            Import::Global { namespace, name, var_type } => Import::Global {
                namespace: namespace.clone(),
                name: name.clone(),
                var_type: *var_type,
            },
        }
    }
}

impl PartialEq for Import {
    /// Two imports are equal when they are of the same shape and agree in
    /// every field, type lists compared in order.
    fn eq(&self, other: &Self) -> (equal: bool) {
        match (self, other) {
            (
                Import::Func { namespace: ns1, name: n1, params: p1, result: r1 },
                Import::Func { namespace: ns2, name: n2, params: p2, result: r2 },
            ) => *ns1 == *ns2 && *n1 == *n2 && same_types(p1, p2) && same_types(r1, r2),
            (
                Import::Global { namespace: ns1, name: n1, var_type: t1 },
                Import::Global { namespace: ns2, name: n2, var_type: t2 },
            ) => *ns1 == *ns2 && *n1 == *n2 && *t1 == *t2,
            _ => false,
        }
    }
}

impl PartialEqSpecImpl for Import {
    open spec fn obeys_eq_spec() -> bool {
        true
    }

    open spec fn eq_spec(&self, other: &Self) -> bool {
        self@ == other@
    }
}

} // verus!
