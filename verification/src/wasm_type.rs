use vstd::prelude::*;
use vstd::string::StringExecFns;

verus! {

/// A primitive value type usable in signatures and as the type of a global.
#[derive(Debug, Clone, Copy, PartialEq, Eq, Structural)]
pub enum WasmType {
    I32,
    I64,
    F32,
    F64,
}

impl WasmType {
    /// The lowercase name under which the type is written in diagnostics.
    pub open spec fn mnemonic(self) -> Seq<char> {
        match self {
            WasmType::I32 => "i32"@,
            WasmType::I64 => "i64"@,
            WasmType::F32 => "f32"@,
            WasmType::F64 => "f64"@,
        }
    }

    /// The name of the variant, as a definition is written out with it.
    pub open spec fn variant_name(self) -> Seq<char> {
        match self {
            WasmType::I32 => "I32"@,
            WasmType::I64 => "I64"@,
            WasmType::F32 => "F32"@,
            WasmType::F64 => "F64"@,
        }
    }

    /// The mnemonic of the type as an owned string.
    pub fn to_string(&self) -> (s: String)
        ensures
            s@ == self.mnemonic(),
    {
        match self {
            WasmType::I32 => String::from_str("i32"),
            WasmType::I64 => String::from_str("i64"),
            WasmType::F32 => String::from_str("f32"),
            WasmType::F64 => String::from_str("f64"),
        }
    }
}

/// Compares two type lists element by element, in order.
pub(crate) fn same_types(a: &Vec<WasmType>, b: &Vec<WasmType>) -> (same: bool)
    ensures
        same == (a@ == b@),
{
    if a.len() != b.len() {
        return false;
    }
    let mut i: usize = 0;
    while i < a.len()
        invariant
            a.len() == b.len(),
            i <= a.len(),
            forall|j: int| 0 <= j < i ==> a@[j] == b@[j],
        decreases a.len() - i,
    {
        if a[i] != b[i] {
            return false;
        }
        i += 1;
    }
    assert(a@ =~= b@);
    true
}

} // verus!
