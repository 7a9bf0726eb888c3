use vstd::prelude::*;
use vstd::std_specs::cmp::PartialEqSpecImpl;
use vstd::string::StringExecFns;
use crate::keyed::Keyed;
use crate::text::{
    func_export_text, global_export_text, quote, quoted, render_func_export, render_global_export,
};
use crate::wasm_type::{same_types, WasmType};

verus! {

/// A binding that a module offers to those who use it.
#[derive(Debug, Eq)]
pub enum Export {
    Func { name: String, params: Vec<WasmType>, result: Vec<WasmType> },
    Global { name: String, var_type: WasmType },
}

/// What identifies an export: its name.
pub type ExportKey = Seq<char>;

/// An [`Export`] as a mathematical value.
pub enum ExportView {
    Func { name: Seq<char>, params: Seq<WasmType>, result: Seq<WasmType> },
    Global { name: Seq<char>, var_type: WasmType },
}

impl Keyed for ExportView {
    type Key = ExportKey;

    open spec fn key(&self) -> ExportKey {
        match *self {
            ExportView::Func { name, .. } => name,
            ExportView::Global { name, .. } => name,
        }
    }
}

impl ExportView {
    /// The definition written out in full, as a diagnostic shows it.
    pub open spec fn rendering(self) -> Seq<char> {
        match self {
            ExportView::Func { name, params, result } => func_export_text(
                quoted(name),
                params,
                result,
            ),
            ExportView::Global { name, var_type } => global_export_text(quoted(name), var_type),
        }
    }
}

impl View for Export {
    type V = ExportView;

    open spec fn view(&self) -> ExportView {
        match *self {
            Export::Func { name, params, result } => ExportView::Func {
                name: name@,
                params: params@,
                result: result@,
            },
            Export::Global { name, var_type } => ExportView::Global { name: name@, var_type },
        }
    }
}

/// The values of a list of exports, in the same order.
pub open spec fn export_views(list: Seq<Export>) -> Seq<ExportView> {
    Seq::new(list.len(), |i: int| list[i]@)
}

impl Export {
    /// The key under which a contract holds the export of this name.
    pub fn format_key(name: &str) -> (key: String)
        ensures
            key@ == name@,
    {
        String::from_str(name)
    }

    /// The key under which a contract holds this export.
    pub fn get_key(&self) -> (key: String)
        ensures
            key@ == self@.key(),
    {
        Self::format_key(self.name().as_str())
    }

    /// The name under which the binding is offered.
    pub fn name(&self) -> (name: &String)
        ensures
            name@ == self@.key(),
    {
        match self {
            Export::Func { name, .. } => name,
            Export::Global { name, .. } => name,
        }
    }

    /// Writes the definition out in full.
    pub fn render(&self) -> (text: String)
        ensures
            text@ == self@.rendering(),
    {
        match self {
            Export::Func { name, params, result } => render_func_export(
                quote(name.as_str()).as_str(),
                params,
                result,
            ),
            Export::Global { name, var_type } => render_global_export(
                quote(name.as_str()).as_str(),
                *var_type,
            ),
        }
    }
}

impl Clone for Export {
    fn clone(&self) -> (copy: Self)
        ensures
            copy@ == self@,
    {
        match self {
            Export::Func { name, params, result } => Export::Func {
                name: name.clone(),
                params: params.clone(),
                result: result.clone(),
            },
            Export::Global { name, var_type } => Export::Global {
                name: name.clone(),
                var_type: *var_type,
            },
        }
    }
}

impl PartialEq for Export {
    /// Two exports are equal when they are of the same shape and agree in
    /// every field, type lists compared in order.
    fn eq(&self, other: &Self) -> (equal: bool) {
        match (self, other) {
            (
                Export::Func { name: n1, params: p1, result: r1 },
                Export::Func { name: n2, params: p2, result: r2 },
            ) => *n1 == *n2 && same_types(p1, p2) && same_types(r1, r2),
            (
                Export::Global { name: n1, var_type: t1 },
                Export::Global { name: n2, var_type: t2 },
            ) => *n1 == *n2 && *t1 == *t2,
            _ => false,
        }
    }
}

impl PartialEqSpecImpl for Export {
    open spec fn obeys_eq_spec() -> bool {
        true
    }

    open spec fn eq_spec(&self, other: &Self) -> bool {
        self@ == other@
    }
}

} // verus!
