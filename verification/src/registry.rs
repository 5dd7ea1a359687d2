//! The operator registry: a namespaced table of per-operator-kind
//! serialization hooks for the interchange format.
//!
//! Loading looks an operator name up and builds an operator from parsed
//! parameter values; dumping looks an operator-kind identity up and emits the
//! registered name together with the operator's parameter bindings. The
//! registry is built once, at initialization, by composing registrations, and
//! is read-only afterwards.

use vstd::prelude::*;
use crate::graph::ModelError;
use crate::ops::{Op, OpKind, OpView};

verus! {

broadcast use vstd::string::to_string_from_display_ensures_for_str;

/// Mathematical model of an [`OpTemplate`].
#[verifier::ext_equal]
pub enum OpTemplateView {
    Fixed(OpView),
    ElementWise { kind: u64 },
    Buffering { kind: u64 },
}

/// How a load entry builds an operator from parsed parameter values.
#[derive(Debug)]
pub enum OpTemplate {
    /// One fixed operator value suffices; the registration carries it.
    Fixed(Op),
    /// An element-wise operator of the given kind carrying the parsed
    /// parameters.
    ElementWise { kind: u64 },
    /// A windowed (buffering) operator of the given kind; its delay is the
    /// first parameter when that is present and non-negative, zero otherwise.
    Buffering { kind: u64 },
}

impl View for OpTemplate {
    type V = OpTemplateView;

    open spec fn view(&self) -> OpTemplateView {
        match self {
            OpTemplate::Fixed(op) => OpTemplateView::Fixed(op@),
            OpTemplate::ElementWise { kind } => OpTemplateView::ElementWise { kind: *kind },
            OpTemplate::Buffering { kind } => OpTemplateView::Buffering { kind: *kind },
        }
    }
}

/// The operator a template builds from parameter values; `None` when the
/// parameter bindings do not fit the template (a windowed operator needs a
/// non-negative delay as its first parameter) — never a defaulted operator.
pub open spec fn template_load(t: OpTemplateView, params: Seq<i64>) -> Option<OpView> {
    match t {
        OpTemplateView::Fixed(op) => Option::Some(op),
        OpTemplateView::ElementWise { kind } => Option::Some(
            OpView::ElementWise { kind, params },
        ),
        OpTemplateView::Buffering { kind } => if params.len() >= 1 && params[0] >= 0 {
            Option::Some(OpView::Buffering { kind, delay: params[0] as u64 })
        } else {
            Option::None
        },
    }
}

/// The parameter bindings a dump emits for an operator; `None` when a value
/// does not fit the interchange parameter range — never a clamped value.
pub open spec fn op_dump_params(op: OpView) -> Option<Seq<i64>> {
    match op {
        OpView::Source { .. } => Option::Some(Seq::empty()),
        OpView::Dummy => Option::Some(Seq::empty()),
        OpView::ElementWise { params, .. } => Option::Some(params),
        OpView::Buffering { delay, .. } => if delay <= i64::MAX {
            Option::Some(seq![delay as i64])
        } else {
            Option::None
        },
        OpView::Reduce { axis, .. } => if axis <= i64::MAX {
            Option::Some(seq![axis as i64])
        } else {
            Option::None
        },
    }
}

/// Mathematical model of a [`LoadEntry`].
#[verifier::ext_equal]
pub struct LoadEntryView {
    pub name: Seq<char>,
    pub schema: Seq<Seq<char>>,
    pub template: OpTemplateView,
}

/// A load registration: interchange name, named-parameter schema, and the
/// constructor template.
#[derive(Debug)]
pub struct LoadEntry {
    pub name: String,
    pub schema: Vec<String>,
    pub template: OpTemplate,
}

impl View for LoadEntry {
    type V = LoadEntryView;

    open spec fn view(&self) -> LoadEntryView {
        LoadEntryView {
            name: self.name@,
            schema: self.schema@.map_values(|s: String| s@),
            template: self.template@,
        }
    }
}

/// Mathematical model of a [`DumpEntry`].
#[verifier::ext_equal]
pub struct DumpEntryView {
    pub kind: OpKind,
    pub name: Seq<char>,
}

/// A dump registration: operator-kind identity and the name to emit.
#[derive(Debug)]
pub struct DumpEntry {
    pub kind: OpKind,
    pub name: String,
}

impl View for DumpEntry {
    type V = DumpEntryView;

    open spec fn view(&self) -> DumpEntryView {
        DumpEntryView { kind: self.kind, name: self.name@ }
    }
}

/// Mathematical model of a [`Registry`].
#[verifier::ext_equal]
pub struct RegistryView {
    pub namespace: Seq<char>,
    pub loaders: Seq<LoadEntryView>,
    pub dumpers: Seq<DumpEntryView>,
}

/// A namespaced registry of serialization hooks, keyed by name for loading
/// and by operator-kind identity for dumping.
#[derive(Debug)]
pub struct Registry {
    pub namespace: String,
    pub loaders: Vec<LoadEntry>,
    pub dumpers: Vec<DumpEntry>,
}

impl View for Registry {
    type V = RegistryView;

    open spec fn view(&self) -> RegistryView {
        RegistryView {
            namespace: self.namespace@,
            loaders: self.loaders@.map_values(|e: LoadEntry| e@),
            dumpers: self.dumpers@.map_values(|e: DumpEntry| e@),
        }
    }
}

/// The name dumped for `kind`: the last registration wins.
pub open spec fn find_dumper(ds: Seq<DumpEntryView>, kind: OpKind) -> Option<Seq<char>>
    decreases ds.len(),
{
    if ds.len() == 0 {
        Option::None
    } else if ds.last().kind == kind {
        Option::Some(ds.last().name)
    } else {
        find_dumper(ds.drop_last(), kind)
    }
}

/// The load entry for `name`: the last registration wins.
pub open spec fn find_loader(ls: Seq<LoadEntryView>, name: Seq<char>) -> Option<LoadEntryView>
    decreases ls.len(),
{
    if ls.len() == 0 {
        Option::None
    } else if ls.last().name == name {
        Option::Some(ls.last())
    } else {
        find_loader(ls.drop_last(), name)
    }
}

/// The registry after a unit element-wise registration: the one operator
/// value serves both directions, there being nothing to parameterize.
pub open spec fn spec_register_unit_element_wise(
    r: RegistryView,
    name: Seq<char>,
    op: OpView,
) -> RegistryView {
    RegistryView {
        loaders: r.loaders.push(
            LoadEntryView { name, schema: Seq::empty(), template: OpTemplateView::Fixed(op) },
        ),
        dumpers: r.dumpers.push(DumpEntryView { kind: op.kind(), name }),
        ..r
    }
}

impl Registry {
    /// An empty, namespaced registry.
    pub fn new(namespace: String) -> (r: Registry)
        ensures
            r@ == (RegistryView {
                namespace: namespace@,
                loaders: Seq::<LoadEntryView>::empty(),
                dumpers: Seq::<DumpEntryView>::empty(),
            }),
    {
        let r = Registry { namespace, loaders: Vec::new(), dumpers: Vec::new() };
        proof {
            assert(r@.loaders =~= Seq::<LoadEntryView>::empty());
            assert(r@.dumpers =~= Seq::<DumpEntryView>::empty());
        }
        r
    }

    /// Registers how to emit a node of kind `kind` back into interchange
    /// terms. At most one dumper per kind is meaningful: the last
    /// registration wins, by caller responsibility — there is no conflict
    /// detection.
    pub fn register_dumper(&mut self, kind: OpKind, name: String)
        ensures
            final(self)@ == (RegistryView {
                dumpers: old(self)@.dumpers.push(DumpEntryView { kind, name: name@ }),
                ..old(self)@
            }),
    {
        self.dumpers.push(DumpEntry { kind, name });
        proof {
            assert(self@.dumpers =~= old(self)@.dumpers.push(self.dumpers@.last()@));
            assert(self@ =~~= RegistryView {
                dumpers: old(self)@.dumpers.push(self.dumpers@.last()@),
                ..old(self)@
            });
        }
    }

    /// Registers a general operator kind: an explicit schema of named
    /// parameters and a constructor template building a node's operator from
    /// parsed parameters.
    pub fn register_primitive(&mut self, name: String, schema: Vec<String>, template: OpTemplate)
        ensures
            final(self)@ == (RegistryView {
                loaders: old(self)@.loaders.push(
                    LoadEntryView {
                        name: name@,
                        schema: schema@.map_values(|s: String| s@),
                        template: template@,
                    },
                ),
                ..old(self)@
            }),
    {
        self.loaders.push(LoadEntry { name, schema, template });
        proof {
            assert(self@.loaders =~= old(self)@.loaders.push(self.loaders@.last()@));
            assert(self@ =~~= RegistryView {
                loaders: old(self)@.loaders.push(self.loaders@.last()@),
                ..old(self)@
            });
        }
    }

    /// Convenience registration for an element-wise operator kind: wires
    /// dumping and loading through the general machinery, the output-fact
    /// rule being the element-wise one (same shape as the single input).
    pub fn register_element_wise(&mut self, name: String, kind: u64, schema: Vec<String>)
        ensures
            final(self)@ == (RegistryView {
                loaders: old(self)@.loaders.push(
                    LoadEntryView {
                        name: name@,
                        schema: schema@.map_values(|s: String| s@),
                        template: OpTemplateView::ElementWise { kind },
                    },
                ),
                dumpers: old(self)@.dumpers.push(
                    DumpEntryView { kind: OpKind::Registered(kind), name: name@ },
                ),
                ..old(self)@
            }),
    {
        let dump_name = name.clone();
        self.register_primitive(name, schema, OpTemplate::ElementWise { kind });
        self.register_dumper(OpKind::Registered(kind), dump_name);
    }

    /// Convenience registration for a zero-parameter element-wise operator:
    /// the one operator value serves both dumping and loading, there being
    /// nothing to parameterize.
    pub fn register_unit_element_wise(&mut self, name: String, op: Op)
        ensures
            final(self)@ == spec_register_unit_element_wise(old(self)@, name@, op@),
    {
        let dump_name = name.clone();
        let kind = op.kind_identity();
        self.register_primitive(name, Vec::new(), OpTemplate::Fixed(op));
        self.register_dumper(kind, dump_name);
        proof {
            assert(Seq::<String>::empty().map_values(|s: String| s@) =~= Seq::<Seq<char>>::empty());
            assert(self@ =~~= spec_register_unit_element_wise(old(self)@, name@, op@));
        }
    }

    /// Emits `op` in interchange terms: the name registered for its kind and
    /// its parameter bindings. `None` when no dumper matches or a parameter
    /// value does not fit the interchange range — a hard error to be
    /// surfaced by the caller, never swallowed here.
    pub fn dump(&self, op: &Op) -> (r: Option<(String, Vec<i64>)>)
        ensures
            (r is Some <==> find_dumper(self@.dumpers, op@.kind()) is Some && op_dump_params(
                op@,
            ) is Some),
            match r {
                Option::Some(p) => find_dumper(self@.dumpers, op@.kind()) == Option::Some(p.0@)
                    && op_dump_params(op@) == Option::Some(p.1@),
                Option::None => true,
            },
    {
        let kind = op.kind_identity();
        let mut i: usize = self.dumpers.len();
        proof {
            assert(self@.dumpers.take(i as int) =~= self@.dumpers);
        }
        while i > 0
            invariant
                i <= self@.dumpers.len(),
                kind == op@.kind(),
                find_dumper(self@.dumpers, op@.kind()) == find_dumper(
                    self@.dumpers.take(i as int),
                    op@.kind(),
                ),
            decreases i,
        {
            proof {
                assert(self@.dumpers[i - 1] == self.dumpers@[i - 1]@);
                assert(self@.dumpers.take(i as int).last() == self@.dumpers[i - 1]);
                assert(self@.dumpers.take(i as int).drop_last() =~= self@.dumpers.take(i - 1));
            }
            let entry = &self.dumpers[i - 1];
            if entry.kind == kind {
                proof {
                    assert(self@.dumpers.take(i as int).last().kind == op@.kind());
                    assert(find_dumper(self@.dumpers.take(i as int), op@.kind()) == Option::Some(
                        self@.dumpers[i - 1].name,
                    ));
                }
                let nm = entry.name.clone();
                match dump_params(op) {
                    Option::Some(params) => {
                        return Option::Some((nm, params));
                    },
                    Option::None => {
                        return Option::None;
                    },
                }
            }
            i -= 1;
        }
        proof {
            assert(self@.dumpers.take(0) =~= Seq::<DumpEntryView>::empty());
        }
        Option::None
    }

    /// Builds the operator registered under `name` from parsed parameter
    /// values; fails with `UnknownOperatorName` when no entry matches, and
    /// with `InvalidParameters` when the bindings do not fit the entry's
    /// template — never a silently defaulted operator.
    pub fn load(&self, name: &String, params: Vec<i64>) -> (r: Result<Op, ModelError>)
        ensures
            match find_loader(self@.loaders, name@) {
                Option::Some(entry) => match template_load(entry.template, params@) {
                    Option::Some(op) => r is Ok && r->Ok_0@ == op,
                    Option::None => match r {
                        Result::Err(ModelError::InvalidParameters(nm)) => nm@ == name@,
                        _ => false,
                    },
                },
                Option::None => match r {
                    Result::Err(ModelError::UnknownOperatorName(nm)) => nm@ == name@,
                    _ => false,
                },
            },
    {
        let mut i: usize = self.loaders.len();
        proof {
            assert(self@.loaders.take(i as int) =~= self@.loaders);
        }
        while i > 0
            invariant
                i <= self@.loaders.len(),
                find_loader(self@.loaders, name@) == find_loader(
                    self@.loaders.take(i as int),
                    name@,
                ),
            decreases i,
        {
            proof {
                assert(self@.loaders[i - 1] == self.loaders@[i - 1]@);
                assert(self@.loaders.take(i as int).last() == self@.loaders[i - 1]);
                assert(self@.loaders.take(i as int).drop_last() =~= self@.loaders.take(i - 1));
            }
            let entry = &self.loaders[i - 1];
            if entry.name == *name {
                proof {
                    assert(self@.loaders.take(i as int).last().name == name@);
                    assert(find_loader(self@.loaders.take(i as int), name@) == Option::Some(
                        self@.loaders[i - 1],
                    ));
                }
                let op = match &entry.template {
                    OpTemplate::Fixed(op) => op.duplicate(),
                    OpTemplate::ElementWise { kind } => Op::ElementWise { kind: *kind, params },
                    OpTemplate::Buffering { kind } => {
                        if params.len() >= 1 && params[0] >= 0 {
                            Op::Buffering { kind: *kind, delay: params[0] as u64 }
                        } else {
                            return Result::Err(ModelError::InvalidParameters(name.clone()));
                        }
                    },
                };
                return Result::Ok(op);
            }
            i -= 1;
        }
        proof {
            assert(self@.loaders.take(0) =~= Seq::<LoadEntryView>::empty());
        }
        Result::Err(ModelError::UnknownOperatorName(name.clone()))
    }
}

/// The parameter bindings dumped for `op`.
fn dump_params(op: &Op) -> (r: Option<Vec<i64>>)
    ensures
        (r is Some <==> op_dump_params(op@) is Some),
        r is Some ==> op_dump_params(op@) == Option::Some(r->0@),
{
    match op {
        Op::Source { .. } => {
            let v: Vec<i64> = Vec::new();
            proof {
                assert(v@ =~= Seq::<i64>::empty());
            }
            Option::Some(v)
        },
        Op::Dummy => {
            let v: Vec<i64> = Vec::new();
            proof {
                assert(v@ =~= Seq::<i64>::empty());
            }
            Option::Some(v)
        },
        Op::ElementWise { params, .. } => {
            let mut copy: Vec<i64> = Vec::new();
            let mut i: usize = 0;
            while i < params.len()
                invariant
                    i <= params.len(),
                    copy@.len() == i,
                    forall|j: int| 0 <= j < i ==> copy@[j] == params@[j],
                decreases params.len() - i,
            {
                copy.push(params[i]);
                i += 1;
            }
            proof {
                assert(copy@ =~= params@);
            }
            Option::Some(copy)
        },
        Op::Buffering { delay, .. } => {
            if *delay <= i64::MAX as u64 {
                let mut v: Vec<i64> = Vec::new();
                v.push(*delay as i64);
                proof {
                    assert(v@ =~= seq![*delay as i64]);
                }
                Option::Some(v)
            } else {
                Option::None
            }
        },
        Op::Reduce { axis, .. } => {
            if (*axis as u64) <= i64::MAX as u64 {
                let mut v: Vec<i64> = Vec::new();
                v.push(*axis as i64);
                proof {
                    assert(v@ =~= seq![*axis as i64]);
                }
                Option::Some(v)
            } else {
                Option::None
            }
        },
    }
}

/// Kind identity tokens of the extension operator set.
pub const ERF_KIND: u64 = 101;

pub const IS_INF_KIND: u64 = 102;

pub const IS_NAN_KIND: u64 = 103;

pub const LRN_KIND: u64 = 104;

pub const ONE_HOT_KIND: u64 = 105;

/// The load table of the extension registry, in registration order.
pub open spec fn onnx_loaders() -> Seq<LoadEntryView> {
    seq![
        LoadEntryView {
            name: "tract_onnx_erf"@,
            schema: Seq::empty(),
            template: OpTemplateView::Fixed(
                OpView::ElementWise { kind: ERF_KIND, params: Seq::empty() },
            ),
        },
        LoadEntryView {
            name: "tract_onnx_isinf"@,
            schema: seq!["detect_positive"@, "detect_negative"@],
            template: OpTemplateView::ElementWise { kind: IS_INF_KIND },
        },
        LoadEntryView {
            name: "tract_onnx_is_nan"@,
            schema: Seq::empty(),
            template: OpTemplateView::Fixed(
                OpView::ElementWise { kind: IS_NAN_KIND, params: Seq::empty() },
            ),
        },
        LoadEntryView {
            name: "tract_onnx_lrn"@,
            schema: seq!["alpha"@, "beta"@, "bias"@, "size"@],
            template: OpTemplateView::Buffering { kind: LRN_KIND },
        },
        LoadEntryView {
            name: "tract_onnx_one_hot"@,
            schema: seq!["axis"@, "dim"@],
            template: OpTemplateView::ElementWise { kind: ONE_HOT_KIND },
        },
    ]
}

/// The dump table of the extension registry, in registration order.
pub open spec fn onnx_dumpers() -> Seq<DumpEntryView> {
    seq![
        DumpEntryView { kind: OpKind::Registered(ERF_KIND), name: "tract_onnx_erf"@ },
        DumpEntryView { kind: OpKind::Registered(IS_INF_KIND), name: "tract_onnx_isinf"@ },
        DumpEntryView { kind: OpKind::Registered(IS_NAN_KIND), name: "tract_onnx_is_nan"@ },
        DumpEntryView { kind: OpKind::Registered(LRN_KIND), name: "tract_onnx_lrn"@ },
        DumpEntryView { kind: OpKind::Registered(ONE_HOT_KIND), name: "tract_onnx_one_hot"@ },
    ]
}

/// The extension registry, entry for entry: the "tract_onnx" namespace with
/// exactly the five load entries and the five dump entries above.
pub open spec fn is_onnx_registry(r: RegistryView) -> bool {
    &&& r.namespace == "tract_onnx"@
    &&& r.loaders == onnx_loaders()
    &&& r.dumpers == onnx_dumpers()
}

/// What the lookups resolve to on the extension registry: each of the five
/// names finds its load entry, each of the five kinds finds its name, and
/// nothing else is loadable or dumpable.
pub open spec fn onnx_lookup_facts(r: RegistryView) -> bool {
    &&& find_loader(r.loaders, "tract_onnx_erf"@) == Option::Some(onnx_loaders()[0])
    &&& find_loader(r.loaders, "tract_onnx_isinf"@) == Option::Some(onnx_loaders()[1])
    &&& find_loader(r.loaders, "tract_onnx_is_nan"@) == Option::Some(onnx_loaders()[2])
    &&& find_loader(r.loaders, "tract_onnx_lrn"@) == Option::Some(onnx_loaders()[3])
    &&& find_loader(r.loaders, "tract_onnx_one_hot"@) == Option::Some(onnx_loaders()[4])
    &&& find_dumper(r.dumpers, OpKind::Registered(ERF_KIND)) == Option::Some("tract_onnx_erf"@)
    &&& find_dumper(r.dumpers, OpKind::Registered(IS_INF_KIND)) == Option::Some(
        "tract_onnx_isinf"@,
    )
    &&& find_dumper(r.dumpers, OpKind::Registered(IS_NAN_KIND)) == Option::Some(
        "tract_onnx_is_nan"@,
    )
    &&& find_dumper(r.dumpers, OpKind::Registered(LRN_KIND)) == Option::Some("tract_onnx_lrn"@)
    &&& find_dumper(r.dumpers, OpKind::Registered(ONE_HOT_KIND)) == Option::Some(
        "tract_onnx_one_hot"@,
    )
    &&& forall|name: Seq<char>|
        (#[trigger] find_loader(r.loaders, name)) is Some <==> (name == "tract_onnx_erf"@ || name
            == "tract_onnx_isinf"@ || name == "tract_onnx_is_nan"@ || name == "tract_onnx_lrn"@
            || name == "tract_onnx_one_hot"@)
    &&& forall|kind: OpKind|
        (#[trigger] find_dumper(r.dumpers, kind)) is Some <==> (kind == OpKind::Registered(
            ERF_KIND,
        ) || kind == OpKind::Registered(IS_INF_KIND) || kind == OpKind::Registered(IS_NAN_KIND)
            || kind == OpKind::Registered(LRN_KIND) || kind == OpKind::Registered(ONE_HOT_KIND))
}

/// The lookup facts follow from the registry's entries alone.
pub proof fn lemma_onnx_registry_lookups(r: RegistryView)
    requires
        is_onnx_registry(r),
    ensures
        onnx_lookup_facts(r),
{
    reveal_with_fuel(find_dumper, 10);
    reveal_with_fuel(find_loader, 10);
    reveal_strlit("tract_onnx_erf");
    reveal_strlit("tract_onnx_isinf");
    reveal_strlit("tract_onnx_is_nan");
    reveal_strlit("tract_onnx_lrn");
    reveal_strlit("tract_onnx_one_hot");
    assert("tract_onnx_erf"@.len() == 14);
    assert("tract_onnx_isinf"@.len() == 16);
    assert("tract_onnx_is_nan"@.len() == 17);
    assert("tract_onnx_lrn"@.len() == 14);
    assert("tract_onnx_one_hot"@.len() == 18);
    assert("tract_onnx_lrn"@[11] == 'l');
    assert("tract_onnx_erf"@[11] == 'e');
    assert("tract_onnx_lrn"@ != "tract_onnx_erf"@);
    let ds = r.dumpers;
    let ls = r.loaders;
    assert(ds.drop_last() =~= ds.take(4));
    assert(ds.take(4).drop_last() =~= ds.take(3));
    assert(ds.take(3).drop_last() =~= ds.take(2));
    assert(ds.take(2).drop_last() =~= ds.take(1));
    assert(ds.take(1).drop_last() =~= ds.take(0));
    assert(ls.drop_last() =~= ls.take(4));
    assert(ls.take(4).drop_last() =~= ls.take(3));
    assert(ls.take(3).drop_last() =~= ls.take(2));
    assert(ls.take(2).drop_last() =~= ls.take(1));
    assert(ls.take(1).drop_last() =~= ls.take(0));
    assert forall|name: Seq<char>| (#[trigger] find_loader(ls, name)) is Some implies (name
        == "tract_onnx_erf"@ || name == "tract_onnx_isinf"@ || name == "tract_onnx_is_nan"@
        || name == "tract_onnx_lrn"@ || name == "tract_onnx_one_hot"@) by {
        assert(find_loader(ls.take(0), name) is None);
    }
    assert forall|kind: OpKind| (#[trigger] find_dumper(ds, kind)) is Some implies (kind
        == OpKind::Registered(ERF_KIND) || kind == OpKind::Registered(IS_INF_KIND) || kind
        == OpKind::Registered(IS_NAN_KIND) || kind == OpKind::Registered(LRN_KIND) || kind
        == OpKind::Registered(ONE_HOT_KIND)) by {
        assert(find_dumper(ds.take(0), kind) is None);
    }
}

/// The registry contributed by the extension operator set, exercising every
/// registration shape: unit element-wise (erf, is_nan), element-wise with
/// parameters (is_inf), and separately registered dumper/primitive pairs
/// (lrn — modeled as a windowed operator — and one_hot, modeled as a
/// parameterized element-wise operator). The result is pinned entry for
/// entry: exactly the five load names and the five dump kinds resolve.
pub fn onnx_opl_registry() -> (r: Registry)
    ensures
        is_onnx_registry(r@),
        onnx_lookup_facts(r@),
{
    let mut registry: Registry = Registry::new("tract_onnx".to_string());
    let mut erf_params: Vec<i64> = Vec::new();
    proof {
        assert(erf_params@ =~= Seq::<i64>::empty());
    }
    registry.register_unit_element_wise(
        "tract_onnx_erf".to_string(),
        Op::ElementWise { kind: ERF_KIND, params: erf_params },
    );
    let mut isinf_schema: Vec<String> = Vec::new();
    isinf_schema.push("detect_positive".to_string());
    isinf_schema.push("detect_negative".to_string());
    registry.register_element_wise("tract_onnx_isinf".to_string(), IS_INF_KIND, isinf_schema);
    let mut isnan_params: Vec<i64> = Vec::new();
    proof {
        assert(isnan_params@ =~= Seq::<i64>::empty());
    }
    registry.register_unit_element_wise(
        "tract_onnx_is_nan".to_string(),
        Op::ElementWise { kind: IS_NAN_KIND, params: isnan_params },
    );
    registry.register_dumper(OpKind::Registered(LRN_KIND), "tract_onnx_lrn".to_string());
    let mut lrn_schema: Vec<String> = Vec::new();
    lrn_schema.push("alpha".to_string());
    lrn_schema.push("beta".to_string());
    lrn_schema.push("bias".to_string());
    lrn_schema.push("size".to_string());
    registry.register_primitive(
        "tract_onnx_lrn".to_string(),
        lrn_schema,
        OpTemplate::Buffering { kind: LRN_KIND },
    );
    registry.register_dumper(OpKind::Registered(ONE_HOT_KIND), "tract_onnx_one_hot".to_string());
    let mut one_hot_schema: Vec<String> = Vec::new();
    one_hot_schema.push("axis".to_string());
    one_hot_schema.push("dim".to_string());
    registry.register_primitive(
        "tract_onnx_one_hot".to_string(),
        one_hot_schema,
        OpTemplate::ElementWise { kind: ONE_HOT_KIND },
    );
    proof {
        assert(registry@.loaders =~~= onnx_loaders());
        assert(registry@.dumpers =~~= onnx_dumpers());
        lemma_onnx_registry_lookups(registry@);
    }
    registry
}

/// An interchange-format framework: the list of operator registries its
/// reader and writer consult, in registration order.
#[derive(Debug)]
pub struct Framework {
    pub registries: Vec<Registry>,
}

impl View for Framework {
    type V = Seq<RegistryView>;

    open spec fn view(&self) -> Seq<RegistryView> {
        self.registries@.map_values(|r: Registry| r@)
    }
}

impl Framework {
    /// A framework consulting no registry yet.
    pub fn empty() -> (r: Framework)
        ensures
            r@ == Seq::<RegistryView>::empty(),
    {
        let r = Framework { registries: Vec::new() };
        proof {
            assert(r@ =~= Seq::<RegistryView>::empty());
        }
        r
    }
}

/// Extends a framework with the extension operator set's registry.
pub trait WithOnnx: Sized + View<V = Seq<RegistryView>> {
    /// The framework with the extension registry appended: every registry
    /// already consulted is kept, in order, and the appended one is the
    /// extension registry, entry for entry.
    fn with_onnx(self) -> (r: Self)
        ensures
            r@.len() == self@.len() + 1,
            forall|i: int| 0 <= i < self@.len() ==> r@[i] == self@[i],
            is_onnx_registry(r@.last()),
            onnx_lookup_facts(r@.last()),
    ;
}

impl WithOnnx for Framework {
    fn with_onnx(self) -> (r: Framework) {
        let ghost orig = self@;
        let mut framework = self;
        framework.registries.push(onnx_opl_registry());
        proof {
            assert(framework@ =~= orig.push(framework.registries@.last()@));
        }
        framework
    }
}

/// Registering a kind through `register_unit_element_wise` makes the dump
/// and load lookups round-trip: dumping any node of that kind emits the
/// registered name with no parameters, and loading that name rebuilds the
/// very operator value, with its kind identity and output-fact behavior.
pub proof fn lemma_unit_element_wise_round_trip(r: RegistryView, name: Seq<char>, op: OpView)
    ensures
        ({
            let r2 = spec_register_unit_element_wise(r, name, op);
            &&& find_dumper(r2.dumpers, op.kind()) == Option::Some(name)
            &&& find_loader(r2.loaders, name) is Some
            &&& forall|params: Seq<i64>|
                #[trigger] template_load(find_loader(r2.loaders, name)->Some_0.template, params)
                    == Option::Some(op)
        }),
{
    let r2 = spec_register_unit_element_wise(r, name, op);
    assert(r2.dumpers.last() == (DumpEntryView { kind: op.kind(), name }));
    assert(r2.loaders.last() == (LoadEntryView {
        name,
        schema: Seq::empty(),
        template: OpTemplateView::Fixed(op),
    }));
}

} // verus!
