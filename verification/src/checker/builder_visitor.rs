//! The symbol-table builder: a visitor over the completed tree that
//! collects every declaration into nested scopes. It checks nothing and
//! cannot fail.

use vstd::prelude::*;
use crate::parser::types::{
    copy_datatype, copy_expr, copy_value, view_params, lemma_view_params, DataType, Event, Expr,
    Fn, Global, Op, Package, Probe, ProbeList, Provider, Statement, Value, Whamm, Whammy,
    WhammVisitor,
};
use crate::checker::types::{
    lemma_view_scope_list, spec_event_scope, spec_fn_record, spec_package_scope,
    spec_probe_scope, spec_probe_scopes, spec_provider_scope, spec_symbol_table, spec_var_record,
    spec_whammy_scope, view_scope, view_scope_list, FnRecord, Scope, ScopeV, SymbolTable,
    VarRecord,
};

verus! {

fn build_var_record(g: &Global) -> (r: VarRecord)
    ensures
        r@ == spec_var_record(g@),
{
    let name = match &g.var_name {
        Expr::VarId { name, .. } => name.clone(),
        _ => String::new(),
    };
    VarRecord {
        name,
        ty: copy_datatype(&g.ty),
        is_comp_provided: g.is_comp_provided,
        value: match &g.value {
            Some(v) => Some(copy_value(v)),
            None => None,
        },
    }
}

fn build_fn_record(f: &Fn) -> (r: FnRecord)
    ensures
        r@ == spec_fn_record(f@),
{
    let mut params: Vec<(Expr, DataType)> = Vec::new();
    let mut i: usize = 0;
    while i < f.params.len()
        invariant
            i <= f.params@.len(),
            params@.len() == i,
            forall|j: int|
                0 <= j < i ==> crate::parser::types::view_expr(#[trigger] params@[j].0)
                    == crate::parser::types::view_expr(f.params@[j].0)
                    && crate::parser::types::view_datatype(params@[j].1)
                    == crate::parser::types::view_datatype(f.params@[j].1),
        decreases f.params@.len() - i,
    {
        let p = (copy_expr(&f.params[i].0), copy_datatype(&f.params[i].1));
        params.push(p);
        i = i + 1;
    }
    proof {
        lemma_view_params(params@);
        lemma_view_params(f.params@);
        assert(view_params(params@) =~= view_params(f.params@));
    }
    FnRecord {
        name: f.name.clone(),
        params,
        return_ty: match &f.return_ty {
            Some(t) => Some(copy_datatype(t)),
            None => None,
        },
        is_comp_provided: f.is_comp_provided,
    }
}

fn build_var_records(gs: &Vec<Global>) -> (r: Vec<VarRecord>)
    ensures
        r@.map_values(|v: VarRecord| v@) == gs@.map_values(|g: Global| g@).map_values(
            |g: crate::parser::types::GlobalV| spec_var_record(g),
        ),
{
    let mut out: Vec<VarRecord> = Vec::new();
    let mut i: usize = 0;
    while i < gs.len()
        invariant
            i <= gs@.len(),
            out@.len() == i,
            forall|j: int| 0 <= j < i ==> (#[trigger] out@[j])@ == spec_var_record(gs@[j]@),
        decreases gs@.len() - i,
    {
        out.push(build_var_record(&gs[i]));
        i = i + 1;
    }
    proof {
        assert(out@.map_values(|v: VarRecord| v@) =~= gs@.map_values(|g: Global| g@).map_values(
            |g: crate::parser::types::GlobalV| spec_var_record(g),
        ));
    }
    out
}

fn build_fn_records(fs: &Vec<Fn>) -> (r: Vec<FnRecord>)
    ensures
        r@.map_values(|v: FnRecord| v@) == fs@.map_values(|f: Fn| f@).map_values(
            |f: crate::parser::types::FnV| spec_fn_record(f),
        ),
{
    let mut out: Vec<FnRecord> = Vec::new();
    let mut i: usize = 0;
    while i < fs.len()
        invariant
            i <= fs@.len(),
            out@.len() == i,
            forall|j: int| 0 <= j < i ==> (#[trigger] out@[j])@ == spec_fn_record(fs@[j]@),
        decreases fs@.len() - i,
    {
        out.push(build_fn_record(&fs[i]));
        i = i + 1;
    }
    proof {
        assert(out@.map_values(|v: FnRecord| v@) =~= fs@.map_values(|f: Fn| f@).map_values(
            |f: crate::parser::types::FnV| spec_fn_record(f),
        ));
    }
    out
}

fn build_probe_scope(p: &Probe) -> (r: Scope)
    ensures
        r@ == spec_probe_scope(p@),
{
    let r = Scope {
        name: p.name.clone(),
        vars: build_var_records(&p.globals),
        fns: build_fn_records(&p.fns),
        children: Vec::new(),
    };
    proof {
        assert(view_scope_list(r.children@) =~= Seq::<ScopeV>::empty());
    }
    r
}

/// One scope per probe of the event, flattened over its probe-type lists
/// in insertion order.
fn build_probe_scopes(pm: &Vec<ProbeList>) -> (r: Vec<Scope>)
    ensures
        view_scope_list(r@) == spec_probe_scopes(pm@.map_values(|pl: ProbeList| pl@)),
{
    let ghost pmv = pm@.map_values(|pl: ProbeList| pl@);
    let mut out: Vec<Scope> = Vec::new();
    let mut k: usize = 0;
    proof {
        assert(pmv.skip(0) =~= pmv);
        assert(view_scope_list(out@) =~= Seq::<ScopeV>::empty());
    }
    while k < pm.len()
        invariant
            k <= pm@.len(),
            pmv == pm@.map_values(|pl: ProbeList| pl@),
            view_scope_list(out@) + spec_probe_scopes(pmv.skip(k as int)) == spec_probe_scopes(
                pmv,
            ),
        decreases pm@.len() - k,
    {
        let ghost out_pre = out@;
        let mut i: usize = 0;
        let n = pm[k].probes.len();
        while i < n
            invariant
                i <= n,
                k < pm@.len(),
                n == pm@[k as int].probes@.len(),
                pmv == pm@.map_values(|pl: ProbeList| pl@),
                out@.len() == out_pre.len() + i,
                forall|j: int| 0 <= j < out_pre.len() ==> out@[j] == out_pre[j],
                forall|j: int|
                    0 <= j < i ==> view_scope(#[trigger] out@[out_pre.len() + j])
                        == spec_probe_scope(pmv[k as int].probes[j]),
            decreases n - i,
        {
            out.push(build_probe_scope(&pm[k].probes[i]));
            i = i + 1;
        }
        proof {
            lemma_view_scope_list(out@);
            lemma_view_scope_list(out_pre);
            let mapped = pmv[k as int].probes.map_values(
                |p: crate::parser::types::ProbeV| spec_probe_scope(p),
            );
            assert(view_scope_list(out@).len() == out_pre.len() + mapped.len());
            assert forall|j: int| 0 <= j < view_scope_list(out@).len() implies view_scope_list(
                out@,
            )[j] == (view_scope_list(out_pre) + mapped)[j] by {
                if j < out_pre.len() {
                    assert(view_scope_list(out@)[j] == view_scope(out@[j]));
                } else {
                    assert(view_scope_list(out@)[j] == view_scope(out@[j]));
                    assert(view_scope(out@[out_pre.len() + (j - out_pre.len())])
                        == spec_probe_scope(pmv[k as int].probes[j - out_pre.len()]));
                }
            }
            assert(view_scope_list(out@) =~= view_scope_list(out_pre) + mapped);
            assert(pmv.skip(k as int).drop_first() =~= pmv.skip(k as int + 1));
            assert(pmv.skip(k as int)[0] == pmv[k as int]);
            assert(view_scope_list(out@) + spec_probe_scopes(pmv.skip(k as int + 1))
                =~= view_scope_list(out_pre) + spec_probe_scopes(pmv.skip(k as int)));
        }
        k = k + 1;
    }
    proof {
        assert(pmv.skip(pmv.len() as int) =~= Seq::<crate::parser::types::ProbeListV>::empty());
    }
    out
}

fn build_event_scope(e: &Event) -> (r: Scope)
    ensures
        r@ == spec_event_scope(e@),
{
    Scope {
        name: e.name.clone(),
        vars: build_var_records(&e.globals),
        fns: build_fn_records(&e.fns),
        children: build_probe_scopes(&e.probe_map),
    }
}

fn build_package_scope(p: &Package) -> (r: Scope)
    ensures
        r@ == spec_package_scope(p@),
{
    let mut children: Vec<Scope> = Vec::new();
    let mut i: usize = 0;
    while i < p.events.len()
        invariant
            i <= p.events@.len(),
            children@.len() == i,
            forall|j: int|
                0 <= j < i ==> view_scope(#[trigger] children@[j]) == spec_event_scope(
                    p.events@[j]@,
                ),
        decreases p.events@.len() - i,
    {
        children.push(build_event_scope(&p.events[i]));
        i = i + 1;
    }
    proof {
        lemma_view_scope_list(children@);
        assert(view_scope_list(children@) =~= p@.events.map_values(
            |e: crate::parser::types::EventV| spec_event_scope(e),
        ));
    }
    Scope {
        name: p.name.clone(),
        vars: build_var_records(&p.globals),
        fns: build_fn_records(&p.fns),
        children,
    }
}

fn build_provider_scope(p: &Provider) -> (r: Scope)
    ensures
        r@ == spec_provider_scope(p@),
{
    let mut children: Vec<Scope> = Vec::new();
    let mut i: usize = 0;
    while i < p.packages.len()
        invariant
            i <= p.packages@.len(),
            children@.len() == i,
            forall|j: int|
                0 <= j < i ==> view_scope(#[trigger] children@[j]) == spec_package_scope(
                    p.packages@[j]@,
                ),
        decreases p.packages@.len() - i,
    {
        children.push(build_package_scope(&p.packages[i]));
        i = i + 1;
    }
    proof {
        lemma_view_scope_list(children@);
        assert(view_scope_list(children@) =~= p@.packages.map_values(
            |k: crate::parser::types::PackageV| spec_package_scope(k),
        ));
    }
    Scope {
        name: p.name.clone(),
        vars: build_var_records(&p.globals),
        fns: build_fn_records(&p.fns),
        children,
    }
}

fn build_whammy_scope(w: &Whammy) -> (r: Scope)
    ensures
        r@ == spec_whammy_scope(w@),
{
    let mut children: Vec<Scope> = Vec::new();
    let mut i: usize = 0;
    while i < w.providers.len()
        invariant
            i <= w.providers@.len(),
            children@.len() == i,
            forall|j: int|
                0 <= j < i ==> view_scope(#[trigger] children@[j]) == spec_provider_scope(
                    w.providers@[j]@,
                ),
        decreases w.providers@.len() - i,
    {
        children.push(build_provider_scope(&w.providers[i]));
        i = i + 1;
    }
    proof {
        lemma_view_scope_list(children@);
        assert(view_scope_list(children@) =~= w@.providers.map_values(
            |p: crate::parser::types::ProviderV| spec_provider_scope(p),
        ));
    }
    Scope {
        name: w.name.clone(),
        vars: build_var_records(&w.globals),
        fns: build_fn_records(&w.fns),
        children,
    }
}

/// Collects declarations from a completed tree into a symbol table. The
/// traversal is the read-only visitor's: each node before its children,
/// children in declaration order.
pub struct SymbolTableBuilder {
    pub table: SymbolTable,
}

impl SymbolTableBuilder {
    /// A builder holding an empty table.
    pub fn new() -> (r: Self)
        ensures
            r.table@.vars.len() == 0,
            r.table@.fns.len() == 0,
            r.table@.scopes.len() == 0,
    {
        let r = SymbolTableBuilder {
            table: SymbolTable { vars: Vec::new(), fns: Vec::new(), scopes: Vec::new() },
        };
        proof {
            assert(view_scope_list(r.table.scopes@) =~= Seq::<ScopeV>::empty());
            assert(r.table@.vars =~= Seq::<crate::checker::types::VarRecordV>::empty());
            assert(r.table@.fns =~= Seq::<crate::checker::types::FnRecordV>::empty());
        }
        r
    }

    /// Fills the table from the whole tree.
    pub fn build(&mut self, whamm: &Whamm)
        ensures
            final(self).table@ == spec_symbol_table(whamm@),
    {
        let mut scopes: Vec<Scope> = Vec::new();
        let mut i: usize = 0;
        while i < whamm.whammys.len()
            invariant
                i <= whamm.whammys@.len(),
                scopes@.len() == i,
                forall|j: int|
                    0 <= j < i ==> view_scope(#[trigger] scopes@[j]) == spec_whammy_scope(
                        whamm.whammys@[j]@,
                    ),
            decreases whamm.whammys@.len() - i,
        {
            scopes.push(build_whammy_scope(&whamm.whammys[i]));
            i = i + 1;
        }
        proof {
            lemma_view_scope_list(scopes@);
            assert(view_scope_list(scopes@) =~= whamm@.whammys.map_values(
                |u: crate::parser::types::WhammyV| spec_whammy_scope(u),
            ));
        }
        self.table = SymbolTable {
            vars: build_var_records(&whamm.globals),
            fns: build_fn_records(&whamm.fns),
            scopes,
        };
    }

    /// Hands the finished table out.
    pub fn take_table(self) -> (t: SymbolTable)
        ensures
            t@ == self.table@,
    {
        self.table
    }
}

impl WhammVisitor<()> for SymbolTableBuilder {
    fn visit_whamm(&mut self, whamm: &Whamm) {
        self.build(whamm);
    }

    fn visit_whammy(&mut self, whammy: &Whammy) {
        let s = build_whammy_scope(whammy);
        self.table.scopes.push(s);
    }

    fn visit_provider(&mut self, provider: &Provider) {
        let s = build_provider_scope(provider);
        self.table.scopes.push(s);
    }

    fn visit_package(&mut self, package: &Package) {
        let s = build_package_scope(package);
        self.table.scopes.push(s);
    }

    fn visit_event(&mut self, event: &Event) {
        let s = build_event_scope(event);
        self.table.scopes.push(s);
    }

    fn visit_probe(&mut self, probe: &Probe) {
        let s = build_probe_scope(probe);
        self.table.scopes.push(s);
    }

    fn visit_fn(&mut self, f: &Fn) {
        let r = build_fn_record(f);
        self.table.fns.push(r);
    }

    fn visit_formal_param(&mut self, _param: &(Expr, DataType)) {
    }

    fn visit_stmt(&mut self, _stmt: &Statement) {
    }

    fn visit_expr(&mut self, _expr: &Expr) {
    }

    fn visit_op(&mut self, _op: &Op) {
    }

    fn visit_datatype(&mut self, _datatype: &DataType) {
    }

    fn visit_value(&mut self, _val: &Value) {
    }
}

} // verus!
