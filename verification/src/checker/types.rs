//! The symbol table: nested scopes keyed by script-unit name, then
//! provider, package, event and probe name, each recording the variables
//! and functions declared there and whether each is host-provided.

use vstd::prelude::*;
use crate::parser::types::{
    DataType, DataTypeV, Expr, ExprV, Fn, FnV, Global, GlobalV, Value, ValueV, view_datatype,
    view_expr, view_params, view_value, EventV, PackageV, ProbeListV, ProbeV, ProviderV, WhammV,
    WhammyV,
};

verus! {

broadcast use vstd::std_specs::vec::axiom_vec_index_decreases;

/// A declared variable: its name, type, host-provided flag and optional
/// constant value.
#[derive(Debug)]
pub struct VarRecord {
    pub name: String,
    pub ty: DataType,
    pub is_comp_provided: bool,
    pub value: Option<Value>,
}

/// A declared function: its name and signature, and whether the host
/// provides it.
#[derive(Debug)]
pub struct FnRecord {
    pub name: String,
    pub params: Vec<(Expr, DataType)>,
    pub return_ty: Option<DataType>,
    pub is_comp_provided: bool,
}

/// One scope of the table: its name, its declarations and its child
/// scopes, in declaration order.
#[derive(Debug)]
pub struct Scope {
    pub name: String,
    pub vars: Vec<VarRecord>,
    pub fns: Vec<FnRecord>,
    pub children: Vec<Scope>,
}

/// The symbol table of one compilation: the program-level declarations and
/// one scope tree per registered script unit.
#[derive(Debug)]
pub struct SymbolTable {
    pub vars: Vec<VarRecord>,
    pub fns: Vec<FnRecord>,
    pub scopes: Vec<Scope>,
}

/// Mathematical model of a `VarRecord`.
pub struct VarRecordV {
    pub name: Seq<char>,
    pub ty: DataTypeV,
    pub is_comp_provided: bool,
    pub value: Option<ValueV>,
}

/// Mathematical model of a `FnRecord`.
pub struct FnRecordV {
    pub name: Seq<char>,
    pub params: Seq<(ExprV, DataTypeV)>,
    pub return_ty: Option<DataTypeV>,
    pub is_comp_provided: bool,
}

/// Mathematical model of a `Scope`.
pub struct ScopeV {
    pub name: Seq<char>,
    pub vars: Seq<VarRecordV>,
    pub fns: Seq<FnRecordV>,
    pub children: Seq<ScopeV>,
}

/// Mathematical model of a `SymbolTable`.
pub struct SymbolTableV {
    pub vars: Seq<VarRecordV>,
    pub fns: Seq<FnRecordV>,
    pub scopes: Seq<ScopeV>,
}

impl View for VarRecord {
    type V = VarRecordV;

    open spec fn view(&self) -> VarRecordV {
        VarRecordV {
            name: self.name@,
            ty: view_datatype(self.ty),
            is_comp_provided: self.is_comp_provided,
            value: match self.value {
                Some(v) => Some(view_value(v)),
                None => None,
            },
        }
    }
}

impl View for FnRecord {
    type V = FnRecordV;

    open spec fn view(&self) -> FnRecordV {
        FnRecordV {
            name: self.name@,
            params: view_params(self.params@),
            return_ty: match self.return_ty {
                Some(t) => Some(view_datatype(t)),
                None => None,
            },
            is_comp_provided: self.is_comp_provided,
        }
    }
}

pub open spec fn view_scope(s: Scope) -> ScopeV
    decreases s,
{
    ScopeV {
        name: s.name@,
        vars: s.vars@.map_values(|v: VarRecord| v@),
        fns: s.fns@.map_values(|f: FnRecord| f@),
        children: view_scope_list(s.children@),
    }
}

pub open spec fn view_scope_list(ss: Seq<Scope>) -> Seq<ScopeV>
    decreases ss,
{
    if ss.len() == 0 {
        Seq::empty()
    } else {
        seq![view_scope(ss[0])] + view_scope_list(ss.drop_first())
    }
}

/// The view of a scope list is elementwise.
pub proof fn lemma_view_scope_list(ss: Seq<Scope>)
    ensures
        view_scope_list(ss).len() == ss.len(),
        forall|i: int| 0 <= i < ss.len() ==> view_scope_list(ss)[i] == view_scope(ss[i]),
    decreases ss,
{
    if ss.len() > 0 {
        lemma_view_scope_list(ss.drop_first());
    }
}

impl View for Scope {
    type V = ScopeV;

    open spec fn view(&self) -> ScopeV {
        view_scope(*self)
    }
}

impl View for SymbolTable {
    type V = SymbolTableV;

    open spec fn view(&self) -> SymbolTableV {
        SymbolTableV {
            vars: self.vars@.map_values(|v: VarRecord| v@),
            fns: self.fns@.map_values(|f: FnRecord| f@),
            scopes: view_scope_list(self.scopes@),
        }
    }
}

// What the builder collects, stated over the tree's model.

/// The declared name of a variable: the name of its `VarId` target, or
/// empty where an earlier stage produced something else (it never does).
pub open spec fn spec_var_name(e: ExprV) -> Seq<char> {
    match e {
        ExprV::VarId { name, .. } => name,
        _ => Seq::empty(),
    }
}

pub open spec fn spec_var_record(g: GlobalV) -> VarRecordV {
    VarRecordV {
        name: spec_var_name(g.var_name),
        ty: g.ty,
        is_comp_provided: g.is_comp_provided,
        value: g.value,
    }
}

pub open spec fn spec_fn_record(f: FnV) -> FnRecordV {
    FnRecordV {
        name: f.name,
        params: f.params,
        return_ty: f.return_ty,
        is_comp_provided: f.is_comp_provided,
    }
}

pub open spec fn spec_probe_scope(p: ProbeV) -> ScopeV {
    ScopeV {
        name: p.name,
        vars: p.globals.map_values(|g: GlobalV| spec_var_record(g)),
        fns: p.fns.map_values(|f: FnV| spec_fn_record(f)),
        children: Seq::empty(),
    }
}

/// The probe scopes of an event, flattened over its probe-type lists in
/// insertion order.
pub open spec fn spec_probe_scopes(pm: Seq<ProbeListV>) -> Seq<ScopeV>
    decreases pm,
{
    if pm.len() == 0 {
        Seq::empty()
    } else {
        pm[0].probes.map_values(|p: ProbeV| spec_probe_scope(p)) + spec_probe_scopes(
            pm.drop_first(),
        )
    }
}

pub open spec fn spec_event_scope(e: EventV) -> ScopeV {
    ScopeV {
        name: e.name,
        vars: e.globals.map_values(|g: GlobalV| spec_var_record(g)),
        fns: e.fns.map_values(|f: FnV| spec_fn_record(f)),
        children: spec_probe_scopes(e.probe_map),
    }
}

pub open spec fn spec_package_scope(p: PackageV) -> ScopeV {
    ScopeV {
        name: p.name,
        vars: p.globals.map_values(|g: GlobalV| spec_var_record(g)),
        fns: p.fns.map_values(|f: FnV| spec_fn_record(f)),
        children: p.events.map_values(|e: EventV| spec_event_scope(e)),
    }
}

pub open spec fn spec_provider_scope(p: ProviderV) -> ScopeV {
    ScopeV {
        name: p.name,
        vars: p.globals.map_values(|g: GlobalV| spec_var_record(g)),
        fns: p.fns.map_values(|f: FnV| spec_fn_record(f)),
        children: p.packages.map_values(|k: PackageV| spec_package_scope(k)),
    }
}

pub open spec fn spec_whammy_scope(w: WhammyV) -> ScopeV {
    ScopeV {
        name: w.name,
        vars: w.globals.map_values(|g: GlobalV| spec_var_record(g)),
        fns: w.fns.map_values(|f: FnV| spec_fn_record(f)),
        children: w.providers.map_values(|p: ProviderV| spec_provider_scope(p)),
    }
}

/// The symbol table a completed tree determines: the program-level
/// declarations, then one scope tree per script unit, every level in
/// declaration order. Building it collects declarations only; it checks
/// nothing and cannot fail.
pub open spec fn spec_symbol_table(w: WhammV) -> SymbolTableV {
    SymbolTableV {
        vars: w.globals.map_values(|g: GlobalV| spec_var_record(g)),
        fns: w.fns.map_values(|f: FnV| spec_fn_record(f)),
        scopes: w.whammys.map_values(|u: WhammyV| spec_whammy_scope(u)),
    }
}

} // verus!
