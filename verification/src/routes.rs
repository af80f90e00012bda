//! The routing table of the language server's methods: which JSON-RPC
//! method name each handler of the server trait serves, how its handler is
//! called, and which lifecycle rules guard it.
//!
//! The server trait is read as plain values: each item, and for a method
//! its `#[rpc(..)]` attributes, its parameters and its return type.

use vstd::prelude::*;

use crate::service::MethodKind;

verus! {

/// A `key = value` argument of an attribute; `value` holds the text of a
/// string literal, and is `None` for anything else.
pub struct MetaArg {
    pub key: String,
    pub value: Option<String>,
}

/// An attribute: its path, whether its arguments stand in parentheses
/// (`#[rpc(..)]`, as opposed to `#[rpc]` or `#[rpc = ..]`), and its
/// arguments.
pub struct Attr {
    pub path: String,
    pub is_list: bool,
    pub args: Vec<MetaArg>,
}

/// An input of a method signature.
pub enum Input {
    /// `self`, `&self` or `&mut self`.
    Receiver,
    /// A typed argument, by the text of its type.
    Typed(String),
}

/// A method of the server trait.
pub struct TraitMethod {
    /// The method's name.
    pub name: String,
    pub attrs: Vec<Attr>,
    pub inputs: Vec<Input>,
    /// The text of the return type; `None` for `()` by default.
    pub output: Option<String>,
}

/// An item of the server trait.
pub enum TraitItem {
    Method(TraitMethod),
    /// A constant, a type, a macro call, ...
    Other,
}

/// A method of the server trait as the router sees it.
pub struct MethodCall {
    /// The JSON-RPC method name.
    pub rpc_name: String,
    /// The trait method that handles it.
    pub handler_name: String,
    /// The type of its parameter, if it takes one.
    pub params: Option<String>,
    /// Its return type; `None` for a notification handler.
    pub result: Option<String>,
}

pub open spec fn rpc_path() -> Seq<char> {
    seq!['r', 'p', 'c']
}

pub open spec fn name_key() -> Seq<char> {
    seq!['n', 'a', 'm', 'e']
}

/// The index of the first attribute with the path `rpc`, if any.
pub open spec fn rpc_attr_index(attrs: Seq<Attr>) -> Option<int>
    decreases attrs.len(),
{
    if attrs.len() == 0 {
        None
    } else if attrs.last().path@ == rpc_path() && rpc_attr_index(attrs.drop_last()) is None {
        Some(attrs.len() - 1)
    } else {
        rpc_attr_index(attrs.drop_last())
    }
}

/// Every argument is `name = "<text>"`.
pub open spec fn rpc_args_valid(args: Seq<MetaArg>) -> bool {
    forall|i: int| 0 <= i < args.len() ==> (#[trigger] args[i]).key@ == name_key() && args[i].value is Some
}

/// The JSON-RPC name set by the arguments: the last `name`, or the empty
/// text when there is none.
pub open spec fn rpc_name_of(args: Seq<MetaArg>) -> Seq<char> {
    if args.len() == 0 {
        Seq::empty()
    } else {
        args.last().value->0@
    }
}

/// A method carries an `#[rpc(..)]` attribute whose arguments are all
/// `name = "<text>"`.
pub open spec fn method_annotated(m: TraitMethod) -> bool {
    rpc_attr_index(m.attrs@) matches Some(i) && m.attrs@[i].is_list && rpc_args_valid(
        m.attrs@[i].args@,
    )
}

/// Every method of the trait is annotated.
pub open spec fn trait_annotated(items: Seq<TraitItem>) -> bool {
    forall|i: int| 0 <= i < items.len() ==> (#[trigger] items[i] matches TraitItem::Method(m) ==> method_annotated(m))
}

/// The methods of the trait, in order, with the JSON-RPC name, parameter
/// type and return type of each, as plain values.
pub open spec fn method_calls(items: Seq<TraitItem>) -> Seq<(Seq<char>, Seq<char>, Option<Seq<char>>, Option<Seq<char>>)>
    decreases items.len(),
{
    if items.len() == 0 {
        Seq::empty()
    } else {
        let rest = method_calls(items.drop_last());
        match items.last() {
            TraitItem::Method(m) => rest.push(
                (
                    rpc_name_of(m.attrs@[rpc_attr_index(m.attrs@)->0].args@),
                    m.name@,
                    param_type(m.inputs@),
                    match m.output {
                        Some(t) => Some(t@),
                        None => None,
                    },
                ),
            ),
            TraitItem::Other => rest,
        }
    }
}

/// The type of the second input, when it is a typed argument.
pub open spec fn param_type(inputs: Seq<Input>) -> Option<Seq<char>> {
    if inputs.len() >= 2 {
        match inputs[1] {
            Input::Typed(t) => Some(t@),
            Input::Receiver => None,
        }
    } else {
        None
    }
}

pub open spec fn call_view(c: MethodCall) -> (Seq<char>, Seq<char>, Option<Seq<char>>, Option<Seq<char>>) {
    (
        c.rpc_name@,
        c.handler_name@,
        match c.params {
            Some(t) => Some(t@),
            None => None,
        },
        match c.result {
            Some(t) => Some(t@),
            None => None,
        },
    )
}

fn copy_text(s: &String) -> (r: String)
    ensures
        r@ == s@,
{
    s.clone()
}

fn copy_option_text(s: &Option<String>) -> (r: Option<String>)
    ensures
        match (s, r) {
            (Some(a), Some(b)) => a@ == b@,
            (None, None) => true,
            _ => false,
        },
{
    match s {
        Some(t) => Some(t.clone()),
        None => None,
    }
}

/// The first `#[rpc(..)]` attribute among `attrs`.
fn find_rpc_attr(attrs: &Vec<Attr>) -> (r: Option<usize>)
    ensures
        match r {
            Some(i) => rpc_attr_index(attrs@) == Some(i as int) && i < attrs@.len(),
            None => rpc_attr_index(attrs@) is None,
        },
{
    let rpc = "rpc".to_owned();
    proof {
        reveal_strlit("rpc");
    }
    let mut i: usize = 0;
    while i < attrs.len()
        invariant
            i <= attrs@.len(),
            rpc@ == rpc_path(),
            rpc_attr_index(attrs@.take(i as int)) is None,
        decreases attrs.len() - i,
    {
        assert(attrs@.take(i + 1).drop_last() =~= attrs@.take(i as int));
        if attrs[i].path == rpc {
            proof {
                lemma_rpc_attr_index_prefix(attrs@, i as int);
            }
            return Some(i);
        }
        i = i + 1;
    }
    assert(attrs@.take(attrs@.len() as int) =~= attrs@);
    None
}

/// The first `rpc` attribute of a list whose prefix up to `i` has none is
/// at `i`, when the attribute at `i` is one.
proof fn lemma_rpc_attr_index_prefix(attrs: Seq<Attr>, i: int)
    requires
        0 <= i < attrs.len(),
        rpc_attr_index(attrs.take(i)) is None,
        attrs[i].path@ == rpc_path(),
    ensures
        rpc_attr_index(attrs) == Some(i),
    decreases attrs.len(),
{
    assert(attrs.take(i + 1).drop_last() =~= attrs.take(i));
    if i + 1 < attrs.len() {
        assert(attrs.drop_last().take(i) =~= attrs.take(i));
        lemma_rpc_attr_index_prefix(attrs.drop_last(), i);
        assert(rpc_attr_index(attrs.drop_last()) == Some(i));
    } else {
        assert(attrs.drop_last() =~= attrs.take(i));
    }
}

/// Whether the arguments of an `#[rpc(..)]` attribute are all
/// `name = "<text>"`.
fn check_rpc_args(args: &Vec<MetaArg>) -> (ok: bool)
    ensures
        ok == rpc_args_valid(args@),
{
    let key = "name".to_owned();
    proof {
        reveal_strlit("name");
    }
    let mut i: usize = 0;
    while i < args.len()
        invariant
            i <= args@.len(),
            key@ == name_key(),
            forall|j: int| 0 <= j < i ==> (#[trigger] args@[j]).key@ == name_key() && args@[j].value is Some,
        decreases args.len() - i,
    {
        if !(args[i].key == key && args[i].value.is_some()) {
            return false;
        }
        i = i + 1;
    }
    true
}

/// Whether every method of the trait carries a usable `#[rpc(..)]`
/// attribute, which [`parse_method_calls`] requires.
pub fn check_annotations(items: &Vec<TraitItem>) -> (ok: bool)
    ensures
        ok == trait_annotated(items@),
{
    let mut i: usize = 0;
    while i < items.len()
        invariant
            i <= items@.len(),
            forall|j: int| 0 <= j < i ==> (#[trigger] items@[j] matches TraitItem::Method(m) ==> method_annotated(m)),
        decreases items.len() - i,
    {
        match &items[i] {
            TraitItem::Method(m) => {
                match find_rpc_attr(&m.attrs) {
                    None => {
                        return false;
                    },
                    Some(a) => {
                        if !m.attrs[a].is_list || !check_rpc_args(&m.attrs[a].args) {
                            return false;
                        }
                    },
                }
            },
            TraitItem::Other => {},
        }
        i = i + 1;
    }
    true
}

/// Reads the server trait's methods: for each method, in order, the
/// JSON-RPC name given by its `#[rpc(name = "..")]` attribute, its name, the
/// type of its parameter (the typed second input) and its return type.
/// Items that are not methods are skipped.
pub fn parse_method_calls(items: &Vec<TraitItem>) -> (calls: Vec<MethodCall>)
    requires
        trait_annotated(items@),
    ensures
        calls@.map_values(|c: MethodCall| call_view(c)) == method_calls(items@),
{
    let mut calls: Vec<MethodCall> = Vec::new();
    let mut i: usize = 0;
    while i < items.len()
        invariant
            i <= items@.len(),
            trait_annotated(items@),
            calls@.map_values(|c: MethodCall| call_view(c)) == method_calls(items@.take(i as int)),
        decreases items.len() - i,
    {
        let ghost before = calls@;
        assert(items@.take(i + 1).drop_last() =~= items@.take(i as int));
        assert(items@.take(i + 1).last() == items@[i as int]);
        match &items[i] {
            TraitItem::Method(m) => {
                assert(method_annotated(*m));
                let a = match find_rpc_attr(&m.attrs) {
                    Some(a) => a,
                    None => {
                        proof {
                            assert(false);
                        }
                        0
                    },
                };
                let args = &m.attrs[a].args;
                let mut rpc_name = String::new();
                let mut k: usize = 0;
                while k < args.len()
                    invariant
                        k <= args@.len(),
                        rpc_args_valid(args@),
                        rpc_name@ == rpc_name_of(args@.take(k as int)),
                    decreases args.len() - k,
                {
                    match &args[k].value {
                        Some(v) => {
                            rpc_name = v.clone();
                        },
                        None => {},
                    }
                    assert(args@.take(k + 1).last() == args@[k as int]);
                    k = k + 1;
                }
                assert(args@.take(args@.len() as int) =~= args@);
                let params = if m.inputs.len() >= 2 {
                    match &m.inputs[1] {
                        Input::Typed(t) => Some(copy_text(t)),
                        Input::Receiver => None,
                    }
                } else {
                    None
                };
                let call = MethodCall {
                    rpc_name,
                    handler_name: copy_text(&m.name),
                    params,
                    result: copy_option_text(&m.output),
                };
                calls.push(call);
                assert(calls@.map_values(|c: MethodCall| call_view(c)) =~= before.map_values(
                    |c: MethodCall| call_view(c),
                ).push(call_view(call)));
            },
            TraitItem::Other => {},
        }
        i = i + 1;
    }
    assert(items@.take(items@.len() as int) =~= items@);
    calls
}

/// The lifecycle rules that guard a handler, chosen by its JSON-RPC name.
pub open spec fn kind_of_name(rpc_name: Seq<char>) -> MethodKind {
    if rpc_name == "initialize"@ {
        MethodKind::Initialize
    } else if rpc_name == "shutdown"@ {
        MethodKind::Shutdown
    } else {
        MethodKind::Normal
    }
}

/// The lifecycle rules that guard the handler of a JSON-RPC method.
pub fn method_kind(rpc_name: &str) -> (k: MethodKind)
    ensures
        k == kind_of_name(rpc_name@),
{
    let name = rpc_name.to_owned();
    let initialize = "initialize".to_owned();
    let shutdown = "shutdown".to_owned();
    if name == initialize {
        MethodKind::Initialize
    } else if name == shutdown {
        MethodKind::Shutdown
    } else {
        MethodKind::Normal
    }
}

/// How a handler is called: with or without parameters, and whether it
/// answers (a request) or not (a notification).
#[derive(Debug, PartialEq, Eq, Structural, Clone, Copy)]
pub struct Shape {
    pub takes_params: bool,
    pub returns_result: bool,
}

/// The middleware that wraps a handler.
#[derive(Debug, PartialEq, Eq, Structural, Clone, Copy)]
pub enum Guard {
    /// The lifecycle rules of the given kind of method.
    Lifecycle(MethodKind),
    /// No middleware: `$/cancelRequest` is served in every state.
    Nothing,
}

/// What the cancel notification or the server trait's method does.
pub enum Target {
    /// The server trait's method of this name.
    Handler(String),
    /// Cancels the pending request named by the parameters.
    CancelRequest,
    /// Does nothing; the `exit` lifecycle rules do the work.
    Exit,
}

/// One registration in the router.
pub struct Registration {
    pub rpc_name: String,
    pub target: Target,
    pub shape: Shape,
    pub guard: Guard,
}

pub open spec fn registration_view(r: Registration) -> (Seq<char>, Shape, Guard) {
    (r.rpc_name@, r.shape, r.guard)
}

/// The registrations for the trait's methods, in order, followed by the
/// built-in `$/cancelRequest` and `exit`.
pub open spec fn router_plan(calls: Seq<MethodCall>) -> Seq<(Seq<char>, Shape, Guard)> {
    calls.map_values(
        |c: MethodCall|
            (
                c.rpc_name@,
                Shape { takes_params: c.params is Some, returns_result: c.result is Some },
                Guard::Lifecycle(kind_of_name(c.rpc_name@)),
            ),
    ).push(("$/cancelRequest"@, Shape { takes_params: true, returns_result: false }, Guard::Nothing)).push(
        ("exit"@, Shape { takes_params: false, returns_result: false }, Guard::Lifecycle(MethodKind::Exit)),
    )
}

/// Each method of the server trait is registered under its JSON-RPC name
/// as a request handler exactly when it has a return type and with
/// parameters exactly when it takes one, guarded by the `initialize` or
/// `shutdown` rules for those two names and by the ordinary rules for every
/// other; after the methods come `$/cancelRequest`, a notification with
/// parameters and no guard, and `exit`, a notification without parameters
/// under the exit rules.
pub proof fn lemma_router_plan_shapes(calls: Seq<MethodCall>)
    ensures
        router_plan(calls).len() == calls.len() + 2,
        forall|i: int|
            0 <= i < calls.len() ==> {
                let r = #[trigger] router_plan(calls)[i];
                &&& r.0 == calls[i].rpc_name@
                &&& r.1.returns_result == (calls[i].result is Some)
                &&& r.1.takes_params == (calls[i].params is Some)
                &&& (calls[i].rpc_name@ == "initialize"@ ==> r.2 == Guard::Lifecycle(MethodKind::Initialize))
                &&& (calls[i].rpc_name@ == "shutdown"@ ==> r.2 == Guard::Lifecycle(MethodKind::Shutdown))
                &&& (calls[i].rpc_name@ != "initialize"@ && calls[i].rpc_name@ != "shutdown"@ ==> r.2
                    == Guard::Lifecycle(MethodKind::Normal))
            },
        router_plan(calls)[calls.len() as int] == ("$/cancelRequest"@, Shape {
            takes_params: true,
            returns_result: false,
        }, Guard::Nothing),
        router_plan(calls)[calls.len() as int + 1] == ("exit"@, Shape {
            takes_params: false,
            returns_result: false,
        }, Guard::Lifecycle(MethodKind::Exit)),
{
    let m = calls.map_values(
        |c: MethodCall|
            (
                c.rpc_name@,
                Shape { takes_params: c.params is Some, returns_result: c.result is Some },
                Guard::Lifecycle(kind_of_name(c.rpc_name@)),
            ),
    );
    reveal_strlit("initialize");
    reveal_strlit("shutdown");
    assert("initialize"@[0] != "shutdown"@[0]);
    assert("initialize"@ != "shutdown"@);
    assert forall|i: int| 0 <= i < calls.len() implies #[trigger] router_plan(calls)[i] == m[i] by {}
    assert forall|i: int| 0 <= i < calls.len() implies kind_of_name(calls[i].rpc_name@) == (
    if calls[i].rpc_name@ == "initialize"@ {
        MethodKind::Initialize
    } else if calls[i].rpc_name@ == "shutdown"@ {
        MethodKind::Shutdown
    } else {
        MethodKind::Normal
    }) by {}
}

/// The registrations that the router receives for the server trait: each
/// method under its JSON-RPC name, guarded by the lifecycle rules that its
/// name selects (`initialize`, `shutdown`, or the rules of every other
/// method), then `$/cancelRequest` with no guard and `exit` guarded by the
/// exit rules.
pub fn gen_server_router(calls: &Vec<MethodCall>) -> (plan: Vec<Registration>)
    ensures
        plan@.map_values(|r: Registration| registration_view(r)) == router_plan(calls@),
        forall|i: int|
            0 <= i < calls@.len() ==> ((#[trigger] plan@[i]).target matches Target::Handler(h) && h@
                == calls@[i].handler_name@),
        plan@.len() == calls@.len() + 2,
        forall|i: int|
            0 <= i < calls@.len() ==> (#[trigger] plan@[i]).shape.returns_result == (
            calls@[i].result is Some) && plan@[i].shape.takes_params == (calls@[i].params is Some),
{
    let mut plan: Vec<Registration> = Vec::new();
    let mut i: usize = 0;
    while i < calls.len()
        invariant
            i <= calls@.len(),
            plan@.map_values(|r: Registration| registration_view(r)) == calls@.take(i as int).map_values(
                |c: MethodCall|
                    (
                        c.rpc_name@,
                        Shape { takes_params: c.params is Some, returns_result: c.result is Some },
                        Guard::Lifecycle(kind_of_name(c.rpc_name@)),
                    ),
            ),
            plan@.len() == i,
            forall|j: int|
                0 <= j < i ==> ((#[trigger] plan@[j]).target matches Target::Handler(h) && h@ == calls@[j].handler_name@),
        decreases calls.len() - i,
    {
        let c = &calls[i];
        let kind = method_kind(c.rpc_name.as_str());
        let reg = Registration {
            rpc_name: copy_text(&c.rpc_name),
            target: Target::Handler(copy_text(&c.handler_name)),
            shape: Shape { takes_params: c.params.is_some(), returns_result: c.result.is_some() },
            guard: Guard::Lifecycle(kind),
        };
        let ghost before = plan@;
        plan.push(reg);
        assert(calls@.take(i + 1) =~= calls@.take(i as int).push(calls@[i as int]));
        assert(plan@.map_values(|r: Registration| registration_view(r)) =~= before.map_values(
            |r: Registration| registration_view(r),
        ).push(registration_view(reg)));
        i = i + 1;
    }
    assert(calls@.take(calls@.len() as int) =~= calls@);
    let ghost before = plan@;
    plan.push(
        Registration {
            rpc_name: "$/cancelRequest".to_owned(),
            target: Target::CancelRequest,
            shape: Shape { takes_params: true, returns_result: false },
            guard: Guard::Nothing,
        },
    );
    plan.push(
        Registration {
            rpc_name: "exit".to_owned(),
            target: Target::Exit,
            shape: Shape { takes_params: false, returns_result: false },
            guard: Guard::Lifecycle(MethodKind::Exit),
        },
    );
    assert(plan@.map_values(|r: Registration| registration_view(r)) =~= router_plan(calls@));
    proof {
        lemma_router_plan_shapes(calls@);
        assert forall|i: int| 0 <= i < calls@.len() implies (#[trigger] plan@[i]).shape.returns_result
            == (calls@[i].result is Some) && plan@[i].shape.takes_params == (calls@[i].params is Some) by {
            assert(registration_view(plan@[i]) == plan@.map_values(
                |r: Registration| registration_view(r),
            )[i]);
        }
    }
    plan
}

} // verus!
