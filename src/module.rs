use vstd::prelude::*;

use crate::context::{Context, value_data_ok};
use crate::iter::ValueIter;
use crate::ty::{Type, TypeData, FunctionType, params_of};
use crate::value::{Value, ValueData, ValueKind, Function, GlobalValue};
use crate::validate::{function_problem, module_ok, function_ok};

verus! {

/// The address spaces a global can be placed in.
#[derive(Clone, Copy, PartialEq, Eq, Structural, Debug)]
pub enum AddressSpace {
    Generic,
    Global,
    Shared,
    Const,
    Local,
}

impl AddressSpace {
    /// The number of the address space.
    pub open spec fn number_spec(self) -> u32 {
        match self {
            AddressSpace::Generic => 0,
            AddressSpace::Global => 1,
            AddressSpace::Shared => 3,
            AddressSpace::Const => 4,
            AddressSpace::Local => 5,
        }
    }

    /// The number of the address space.
    #[verifier::when_used_as_spec(number_spec)]
    pub fn number(self) -> (r: u32)
        ensures
            r == self.number_spec(),
    {
        match self {
            AddressSpace::Generic => 0,
            AddressSpace::Global => 1,
            AddressSpace::Shared => 3,
            AddressSpace::Const => 4,
            AddressSpace::Local => 5,
        }
    }
}

/// A compilation unit: functions and globals of a context, with a target
/// triple and a data layout.
pub struct Module {
    pub name: String,
    pub functions: Vec<Function>,
    pub globals: Vec<GlobalValue>,
    pub target: String,
    pub data_layout: String,
}

/// The position of the first value named `name` in `vals`, if any.
pub open spec fn first_named(ctx: Context, vals: Seq<Value>, name: Seq<char>, k: int) -> bool {
    &&& 0 <= k < vals.len()
    &&& ctx.value_at(vals[k]).name@ == name
    &&& forall|j: int| 0 <= j < k ==> ctx.value_at(#[trigger] vals[j]).name@ != name
}

pub open spec fn function_values(fs: Seq<Function>) -> Seq<Value> {
    fs.map_values(|f: Function| f.as_value())
}

pub open spec fn global_values_of(gs: Seq<GlobalValue>) -> Seq<Value> {
    gs.map_values(|g: GlobalValue| g.as_value())
}

fn find_named(ctx: &Context, vals: &Vec<Value>, name: &str) -> (r: Option<usize>)
    requires
        ctx.all_valid(vals@),
    ensures
        r is Some <==> exists|k: int| first_named(*ctx, vals@, name@, k),
        r is Some ==> first_named(*ctx, vals@, name@, r->0 as int),
        forall|k: int| 0 <= k < vals@.len() && ctx.value_at(#[trigger] vals@[k]).name@ == name@
            ==> r is Some,
{
    let wanted = String::from_str(name);
    let mut i: usize = 0;
    while i < vals.len()
        invariant
            ctx.all_valid(vals@),
            wanted@ == name@,
            0 <= i <= vals@.len(),
            forall|j: int| 0 <= j < i ==> ctx.value_at(#[trigger] vals@[j]).name@ != name@,
        decreases vals@.len() - i,
    {
        let v = vals[i];
        if ctx.values[v.index].name == wanted {
            proof {
                assert(first_named(*ctx, vals@, name@, i as int));
            }
            return Some(i);
        }
        i = i + 1;
    }
    proof {
        assert forall|k: int| !first_named(*ctx, vals@, name@, k) by {
            if 0 <= k < vals@.len() {
                assert(ctx.value_at(vals@[k]).name@ != name@);
            }
        }
    }
    None
}

/// Two values carry the same non-empty name.
pub open spec fn named_alike(ctx: Context, x: Value, y: Value) -> bool {
    ctx.value_at(x).name@.len() > 0 && ctx.value_at(x).name@ == ctx.value_at(y).name@
}

/// A definition: a function with a body, or a global with an initializer.
/// Anything else is a declaration.
pub open spec fn defined(ctx: Context, v: Value) -> bool {
    match ctx.value_at(v).kind {
        ValueKind::Function { blocks, .. } => blocks@.len() > 0,
        ValueKind::Global { initializer } => initializer is Some,
        _ => false,
    }
}

/// `j` is the first position of `list` whose value carries the name of `v`.
pub open spec fn first_alike(ctx: Context, list: Seq<Value>, v: Value, j: int) -> bool {
    &&& 0 <= j < list.len()
    &&& named_alike(ctx, v, list[j])
    &&& forall|k: int| 0 <= k < j ==> !named_alike(ctx, v, #[trigger] list[k])
}

/// Adding `v` to `list` would define its name twice.
pub open spec fn conflict_one(ctx: Context, list: Seq<Value>, v: Value) -> bool {
    exists|j: int| first_alike(ctx, list, v, j) && defined(ctx, v) && defined(ctx, list[j])
}

/// `list` with `v` merged in: appended when its name is new; otherwise one entry
/// is kept for the name, `v` replacing a declaration when it is a definition.
pub open spec fn merge_one(ctx: Context, list: Seq<Value>, v: Value) -> Seq<Value> {
    if exists|j: int| first_alike(ctx, list, v, j) {
        let j = choose|j: int| first_alike(ctx, list, v, j);
        if defined(ctx, v) && !defined(ctx, list[j]) {
            list.update(j, v)
        } else {
            list
        }
    } else {
        list.push(v)
    }
}

/// `dest` with the first `n` values of `src` merged in, in order.
pub open spec fn merged(ctx: Context, dest: Seq<Value>, src: Seq<Value>, n: int) -> Seq<Value>
    decreases n,
{
    if n <= 0 {
        dest
    } else {
        merge_one(ctx, merged(ctx, dest, src, n - 1), src[n - 1])
    }
}

/// Merging the first `n` values of `src` into `dest` meets two definitions of one name.
pub open spec fn merge_fails(ctx: Context, dest: Seq<Value>, src: Seq<Value>, n: int) -> bool
    decreases n,
{
    if n <= 0 {
        false
    } else {
        merge_fails(ctx, dest, src, n - 1) || conflict_one(ctx, merged(ctx, dest, src, n - 1), src[n - 1])
    }
}

/// Linking `src` into `dest` would define a function or a global name twice.
pub open spec fn clashes(ctx: Context, dest: Module, src: Module) -> bool {
    merge_fails(
        ctx,
        function_values(dest.functions@),
        function_values(src.functions@),
        src.functions@.len() as int,
    ) || merge_fails(
        ctx,
        global_values_of(dest.globals@),
        global_values_of(src.globals@),
        src.globals@.len() as int,
    )
}

proof fn lemma_merge_fails_stays(ctx: Context, dest: Seq<Value>, src: Seq<Value>, i: int, n: int)
    requires
        i <= n,
        merge_fails(ctx, dest, src, i),
    ensures
        merge_fails(ctx, dest, src, n),
    decreases n - i,
{
    if i < n {
        lemma_merge_fails_stays(ctx, dest, src, i, n - 1);
    }
}

fn is_defined(ctx: &Context, v: Value) -> (r: bool)
    requires
        ctx.valid_value(v),
    ensures
        r == defined(*ctx, v),
{
    match &ctx.values[v.index].kind {
        ValueKind::Function { blocks, .. } => blocks.len() > 0,
        ValueKind::Global { initializer } => initializer.is_some(),
        _ => false,
    }
}

/// Merges `v` into `list`; returns whether that would define its name twice, in
/// which case `list` is left as it was.
fn merge_into(ctx: &Context, list: &mut Vec<Value>, v: Value) -> (conflict: bool)
    requires
        ctx.all_valid(old(list)@),
        ctx.valid_value(v),
    ensures
        conflict == conflict_one(*ctx, old(list)@, v),
        conflict ==> final(list)@ == old(list)@,
        !conflict ==> final(list)@ == merge_one(*ctx, old(list)@, v),
        forall|k: int| 0 <= k < final(list)@.len() ==> #[trigger] final(list)@[k] == v
            || old(list)@.contains(final(list)@[k]),
{
    let name = &ctx.values[v.index].name;
    let mut j: usize = 0;
    let mut found = false;
    if !name.as_str().is_empty() {
        while j < list.len() && !found
            invariant
                ctx.all_valid(list@),
                *name == ctx.value_at(v).name,
                name@.len() > 0,
                0 <= j <= list@.len(),
                found ==> j < list@.len() && named_alike(*ctx, v, list@[j as int]),
                forall|k: int| 0 <= k < j && !(found && k == j) ==> !named_alike(*ctx, v, #[trigger] list@[k]),
            decreases list@.len() - j + (if found { 0int } else { 1int }),
        {
            if *name == ctx.values[list[j].index].name {
                found = true;
            } else {
                j = j + 1;
            }
        }
    }
    if found {
        proof {
            assert(first_alike(*ctx, list@, v, j as int));
            assert forall|q: int| first_alike(*ctx, list@, v, q) implies q == j by {
                if q < j {
                    assert(!named_alike(*ctx, v, list@[q]));
                } else if q > j {
                    assert(!named_alike(*ctx, v, list@[j as int]));
                }
            }
        }
        let new_defined = is_defined(ctx, v);
        let old_defined = is_defined(ctx, list[j]);
        if new_defined && old_defined {
            return true;
        }
        if new_defined {
            list.set(j, v);
        }
        false
    } else {
        proof {
            assert forall|q: int| !first_alike(*ctx, list@, v, q) by {
                if 0 <= q < list@.len() && name@.len() > 0 {
                    assert(!named_alike(*ctx, v, list@[q]));
                }
            }
        }
        list.push(v);
        false
    }
}

/// Merges every value of `src` into `dest`, in order; on a name defined twice,
/// returns the value of `src` that met the other definition.
fn merge_all(ctx: &Context, dest: &Vec<Value>, src: &Vec<Value>) -> (r: Result<Vec<Value>, Value>)
    requires
        ctx.all_valid(dest@),
        ctx.all_valid(src@),
    ensures
        r is Err <==> merge_fails(*ctx, dest@, src@, src@.len() as int),
        r is Err ==> ctx.valid_value(r->Err_0),
        r is Ok ==> r->Ok_0@ == merged(*ctx, dest@, src@, src@.len() as int),
        r is Ok ==> forall|k: int| 0 <= k < r->Ok_0@.len() ==> dest@.contains(#[trigger] r->Ok_0@[k])
            || src@.contains(r->Ok_0@[k]),
{
    let ghost d = dest@;
    let mut list: Vec<Value> = Vec::new();
    let mut c: usize = 0;
    while c < dest.len()
        invariant
            0 <= c <= dest@.len(),
            list@ == dest@.subrange(0, c as int),
        decreases dest@.len() - c,
    {
        list.push(dest[c]);
        c = c + 1;
    }
    proof {
        assert(dest@.subrange(0, dest@.len() as int) =~= dest@);
    }
    let mut i: usize = 0;
    while i < src.len()
        invariant
            d == dest@,
            ctx.all_valid(d),
            ctx.all_valid(src@),
            0 <= i <= src@.len(),
            list@ == merged(*ctx, d, src@, i as int),
            !merge_fails(*ctx, d, src@, i as int),
            forall|k: int| 0 <= k < list@.len() ==> d.contains(#[trigger] list@[k]) || src@.contains(list@[k]),
            ctx.all_valid(list@),
        decreases src@.len() - i,
    {
        let v = src[i];
        let ghost before = list@;
        if merge_into(ctx, &mut list, v) {
            proof {
                assert(conflict_one(*ctx, merged(*ctx, d, src@, i as int), src@[i as int]));
                assert(merge_fails(*ctx, d, src@, i as int + 1));
                lemma_merge_fails_stays(*ctx, d, src@, i as int + 1, src@.len() as int);
            }
            return Err(v);
        }
        proof {
            assert forall|k: int| 0 <= k < list@.len() implies d.contains(#[trigger] list@[k]) || src@.contains(list@[k]) by {
                if list@[k] == v {
                    assert(src@[i as int] == v);
                } else {
                    assert(before.contains(list@[k]));
                    let q = choose|q: int| 0 <= q < before.len() && before[q] == list@[k];
                    assert(d.contains(before[q]) || src@.contains(before[q]));
                }
            }
            assert forall|k: int| 0 <= k < list@.len() implies ctx.valid_value(#[trigger] list@[k]) by {
                if list@[k] != v {
                    let q = choose|q: int| 0 <= q < before.len() && before[q] == list@[k];
                    assert(ctx.valid_value(before[q]));
                }
            }
        }
        i = i + 1;
    }
    Ok(list)
}

fn as_functions(vals: &Vec<Value>) -> (r: Vec<Function>)
    ensures
        function_values(r@) == vals@,
        r@.len() == vals@.len(),
        forall|k: int| 0 <= k < r@.len() ==> (#[trigger] r@[k]).as_value() == vals@[k],
{
    let mut r: Vec<Function> = Vec::new();
    let mut i: usize = 0;
    while i < vals.len()
        invariant
            0 <= i <= vals@.len(),
            r@.len() == i,
            forall|k: int| 0 <= k < i ==> (#[trigger] r@[k]).as_value() == vals@[k],
        decreases vals@.len() - i,
    {
        r.push(Function { index: vals[i].index });
        i = i + 1;
    }
    proof {
        assert(function_values(r@) =~= vals@);
    }
    r
}

fn as_globals(vals: &Vec<Value>) -> (r: Vec<GlobalValue>)
    ensures
        global_values_of(r@) == vals@,
        r@.len() == vals@.len(),
        forall|k: int| 0 <= k < r@.len() ==> (#[trigger] r@[k]).as_value() == vals@[k],
{
    let mut r: Vec<GlobalValue> = Vec::new();
    let mut i: usize = 0;
    while i < vals.len()
        invariant
            0 <= i <= vals@.len(),
            r@.len() == i,
            forall|k: int| 0 <= k < i ==> (#[trigger] r@[k]).as_value() == vals@[k],
        decreases vals@.len() - i,
    {
        r.push(GlobalValue { index: vals[i].index });
        i = i + 1;
    }
    proof {
        assert(global_values_of(r@) =~= vals@);
    }
    r
}

pub(crate) fn function_list(fs: &Vec<Function>) -> (r: Vec<Value>)
    ensures
        r@ == function_values(fs@),
{
    let mut r: Vec<Value> = Vec::new();
    let mut i: usize = 0;
    while i < fs.len()
        invariant
            0 <= i <= fs@.len(),
            r@ == function_values(fs@.subrange(0, i as int)),
        decreases fs@.len() - i,
    {
        r.push(fs[i].as_value());
        proof {
            assert(function_values(fs@.subrange(0, i as int + 1)) =~= function_values(fs@.subrange(0, i as int)).push(fs@[i as int].as_value()));
        }
        i = i + 1;
    }
    proof {
        assert(fs@.subrange(0, fs@.len() as int) =~= fs@);
    }
    r
}

pub(crate) fn global_list(gs: &Vec<GlobalValue>) -> (r: Vec<Value>)
    ensures
        r@ == global_values_of(gs@),
{
    let mut r: Vec<Value> = Vec::new();
    let mut i: usize = 0;
    while i < gs.len()
        invariant
            0 <= i <= gs@.len(),
            r@ == global_values_of(gs@.subrange(0, i as int)),
        decreases gs@.len() - i,
    {
        r.push(gs[i].as_value());
        proof {
            assert(global_values_of(gs@.subrange(0, i as int + 1)) =~= global_values_of(gs@.subrange(0, i as int)).push(gs@[i as int].as_value()));
        }
        i = i + 1;
    }
    proof {
        assert(gs@.subrange(0, gs@.len() as int) =~= gs@);
    }
    r
}

fn twice_defined(ctx: &Context, v: Value) -> (msg: String)
    requires
        ctx.valid_value(v),
    ensures
        msg@.len() > 0,
{
    let mut msg = String::from_str("symbol defined twice: ");
    proof {
        reveal_strlit("symbol defined twice: ");
    }
    msg.append(ctx.values[v.index].name.as_str());
    msg
}

impl Module {
    /// Create a new, empty module with the name given.
    pub fn new(name: &str) -> (r: Module)
        ensures
            r.name@ == name@,
            r.functions@.len() == 0,
            r.globals@.len() == 0,
            r.target@.len() == 0,
            r.data_layout@.len() == 0,
    {
        Module {
            name: String::from_str(name),
            functions: Vec::new(),
            globals: Vec::new(),
            target: String::new(),
            data_layout: String::new(),
        }
    }

    /// Every function of the module is a function of the context, and every
    /// global a global variable of it.
    pub open spec fn wf(&self, ctx: Context) -> bool {
        &&& forall|k: int|
            0 <= k < self.functions@.len() ==> ctx.is_function_value(
                (#[trigger] self.functions@[k]).as_value(),
            )
        &&& forall|k: int|
            0 <= k < self.globals@.len() ==> ctx.valid_value((#[trigger] self.globals@[k]).as_value())
                && ctx.value_at(self.globals@[k].as_value()).kind is Global
    }

    /// Tests whether every function of the module is a function of the context,
    /// and every global a global variable of it.
    pub fn is_well_formed(&self, ctx: &Context) -> (r: bool)
        ensures
            r == self.wf(*ctx),
    {
        let mut k: usize = 0;
        while k < self.functions.len()
            invariant
                0 <= k <= self.functions@.len(),
                forall|q: int| 0 <= q < k ==> ctx.is_function_value((#[trigger] self.functions@[q]).as_value()),
            decreases self.functions@.len() - k,
        {
            let f = self.functions[k];
            if f.index >= ctx.values.len() {
                return false;
            }
            match &ctx.values[f.index].kind {
                ValueKind::Function { .. } => {},
                _ => {
                    return false;
                },
            }
            k = k + 1;
        }
        let mut k: usize = 0;
        while k < self.globals.len()
            invariant
                0 <= k <= self.globals@.len(),
                forall|q: int| 0 <= q < self.functions@.len() ==> ctx.is_function_value(
                    (#[trigger] self.functions@[q]).as_value(),
                ),
                forall|q: int| 0 <= q < k ==> ctx.valid_value((#[trigger] self.globals@[q]).as_value())
                    && ctx.value_at(self.globals@[q].as_value()).kind is Global,
            decreases self.globals@.len() - k,
        {
            let g = self.globals[k];
            if g.index >= ctx.values.len() {
                return false;
            }
            match &ctx.values[g.index].kind {
                ValueKind::Global { .. } => {},
                _ => {
                    return false;
                },
            }
            k = k + 1;
        }
        true
    }

    /// The module stays well formed as its context grows.
    pub proof fn lemma_wf_grows(&self, old: Context, new: Context)
        requires
            self.wf(old),
            new.grows_from(old),
        ensures
            self.wf(new),
    {
        assert forall|k: int| 0 <= k < self.functions@.len() implies new.is_function_value(
            (#[trigger] self.functions@[k]).as_value(),
        ) by {
            assert(old.is_function_value(self.functions@[k].as_value()));
        }
        assert forall|k: int| 0 <= k < self.globals@.len() implies new.valid_value(
            (#[trigger] self.globals@[k]).as_value(),
        ) && new.value_at(self.globals@[k].as_value()).kind is Global by {
            assert(old.valid_value(self.globals@[k].as_value()));
        }
    }

    /// Add a function with the name and signature given, with one argument for
    /// each parameter of the signature.
    pub fn add_function(&mut self, ctx: &mut Context, name: &str, sig: Type) -> (f: Function)
        requires
            old(ctx).wf(),
            old(self).wf(*old(ctx)),
            old(ctx).valid_type(sig),
            old(ctx).type_at(sig) is Function,
            old(ctx).types@.len() + 1 < usize::MAX,
            old(ctx).values@.len() + params_of(old(ctx).type_at(sig)).len() + 1 < usize::MAX,
        ensures
            final(ctx).wf(),
            final(self).wf(*final(ctx)),
            final(ctx).grows_from(*old(ctx)),
            final(ctx).types@.len() <= old(ctx).types@.len() + 1,
            final(ctx).blocks@ == old(ctx).blocks@,
            final(self).functions@ == old(self).functions@.push(f),
            final(self).globals@ == old(self).globals@,
            final(self).name == old(self).name,
            final(self).target == old(self).target,
            final(self).data_layout == old(self).data_layout,
            f.index == old(ctx).values@.len(),
            final(ctx).values@.len() == old(ctx).values@.len() + 1 + params_of(old(ctx).type_at(sig)).len(),
            forall|j: int| 0 <= j < old(ctx).values@.len() ==> #[trigger] final(ctx).values@[j] == old(ctx).values@[j],
            final(ctx).is_function_value(f.as_value()),
            final(ctx).value_at(f.as_value()).name@ == name@,
            final(ctx).type_at(final(ctx).type_of(f.as_value())) == (TypeData::Pointer { elem: sig, space: 0 }),
            final(ctx).blocks_of(f).len() == 0,
            final(ctx).attrs(f.as_value()) == 0,
            final(ctx).params_of(f).len() == params_of(old(ctx).type_at(sig)).len(),
            forall|k: int| 0 <= k < final(ctx).params_of(f).len() ==> {
                &&& (#[trigger] final(ctx).params_of(f)[k]).index == f.index + 1 + k
                &&& final(ctx).type_of(final(ctx).params_of(f)[k]) == params_of(old(ctx).type_at(sig))[k]
                &&& final(ctx).value_at(final(ctx).params_of(f)[k]).kind == (ValueKind::Arg {
                    func: f.as_value(),
                    pos: k as usize,
                    attrs: 0,
                })
            },
    {
        let ptr = Type::pointer_ty(ctx, sig);
        let ghost c1 = *ctx;
        let fv = ctx.push_value(
            ValueData {
                ty: ptr,
                name: String::from_str(name),
                kind: ValueKind::Function { params: Vec::new(), blocks: Vec::new(), attrs: 0 },
            },
        );
        let ghost c2 = *ctx;
        let sig_fn = FunctionType { index: sig.index };
        let param_tys = sig_fn.get_params(ctx);
        proof {
            assert(crate::ty::type_refs_ok(ctx.types@[sig.index as int], sig.index as int, ctx.types@.len() as int));
        }
        let mut args: Vec<Value> = Vec::new();
        let mut i: usize = 0;
        while i < param_tys.len()
            invariant
                ctx.wf(),
                ctx.grows_from(c2),
                ctx.types@ == c2.types@,
                ctx.blocks@ == c2.blocks@,
                param_tys@ == params_of(c2.type_at(sig)),
                crate::ty::all_below(param_tys@, ctx.types@.len() as int),
                fv.index == c2.values@.len() - 1,
                c2.values@.len() + param_tys@.len() < usize::MAX,
                0 <= i <= param_tys@.len(),
                ctx.values@.len() == c2.values@.len() + i,
                forall|j: int| 0 <= j < c2.values@.len() ==> #[trigger] ctx.values@[j] == c2.values@[j],
                args@.len() == i,
                forall|k: int| 0 <= k < i ==> {
                    &&& (#[trigger] args@[k]).index == fv.index + 1 + k
                    &&& ctx.values@[args@[k].index as int].ty == param_tys@[k]
                    &&& ctx.values@[args@[k].index as int].kind == (ValueKind::Arg {
                        func: fv,
                        pos: k as usize,
                        attrs: 0,
                    })
                },
            decreases param_tys@.len() - i,
        {
            let a = ctx.push_value(
                ValueData {
                    ty: param_tys[i],
                    name: String::new(),
                    kind: ValueKind::Arg { func: fv, pos: i, attrs: 0 },
                },
            );
            args.push(a);
            i = i + 1;
        }
        let ghost c3 = *ctx;
        let ghost argv = args@;
        match &mut ctx.values[fv.index].kind {
            ValueKind::Function { params, .. } => {
                *params = args;
            },
            _ => {},
        }
        proof {
            let k = ctx.values@[fv.index as int].kind;
            assert(k is Function);
            assert(k->Function_params@ == argv);
            assert(value_data_ok(ctx.values@[fv.index as int], ctx.types@, ctx.values@.len() as int, ctx.blocks@.len() as int));
            assert forall|j: int| 0 <= j < c1.values@.len() implies #[trigger] ctx.values@[j] == old(ctx).values@[j] by {
                assert(ctx.values@[j] == c3.values@[j]);
                assert(c3.values@[j] == c2.values@[j]);
            }
            assert(ctx.grows_from(*old(ctx)));
            old(self).lemma_wf_grows(*old(ctx), *ctx);
        }
        let f = Function { index: fv.index };
        self.functions.push(f);
        proof {
            assert forall|k: int| 0 <= k < self.functions@.len() implies ctx.is_function_value(
                (#[trigger] self.functions@[k]).as_value(),
            ) by {
                if k < self.functions@.len() - 1 {
                    assert(self.functions@[k] == old(self).functions@[k]);
                }
            }
        }
        f
    }

    /// Returns the function with the name given, or `None` if no function of the
    /// module has that name.
    pub fn get_function(&self, ctx: &Context, name: &str) -> (r: Option<Function>)
        requires
            self.wf(*ctx),
        ensures
            r is Some <==> exists|k: int| first_named(*ctx, function_values(self.functions@), name@, k),
            r is Some ==> exists|k: int| first_named(*ctx, function_values(self.functions@), name@, k)
                && r->0 == self.functions@[k],
    {
        let vals = function_list(&self.functions);
        proof {
            assert forall|k: int| 0 <= k < vals@.len() implies ctx.valid_value(#[trigger] vals@[k]) by {
                assert(ctx.is_function_value(self.functions@[k].as_value()));
            }
        }
        match find_named(ctx, &vals, name) {
            Some(k) => Some(self.functions[k]),
            None => None,
        }
    }

    /// Returns the global with the name given, or `None` if no global of the
    /// module has that name.
    pub fn get_global(&self, ctx: &Context, name: &str) -> (r: Option<GlobalValue>)
        requires
            self.wf(*ctx),
        ensures
            r is Some <==> exists|k: int| first_named(*ctx, global_values_of(self.globals@), name@, k),
            r is Some ==> exists|k: int| first_named(*ctx, global_values_of(self.globals@), name@, k)
                && r->0 == self.globals@[k],
    {
        let vals = global_list(&self.globals);
        proof {
            assert forall|k: int| 0 <= k < vals@.len() implies ctx.valid_value(#[trigger] vals@[k]) by {
                assert(ctx.valid_value(self.globals@[k].as_value()));
            }
        }
        match find_named(ctx, &vals, name) {
            Some(k) => Some(self.globals[k]),
            None => None,
        }
    }

    /// Returns the named structure type with the name given, or `None` if there is none.
    pub fn get_type(&self, ctx: &Context, name: &str) -> (r: Option<Type>)
        ensures
            r is Some ==> ctx.valid_type(r->0) && ctx.type_at(r->0) is Named
                && ctx.type_at(r->0)->Named_name@ == name@,
            r is None ==> forall|k: int| 0 <= k < ctx.types@.len() && (#[trigger] ctx.types@[k]) is Named
                ==> ctx.types@[k]->Named_name@ != name@,
    {
        let wanted = String::from_str(name);
        let mut i: usize = 0;
        while i < ctx.types.len()
            invariant
                wanted@ == name@,
                0 <= i <= ctx.types@.len(),
                forall|k: int| 0 <= k < i && (#[trigger] ctx.types@[k]) is Named
                    ==> ctx.types@[k]->Named_name@ != name@,
            decreases ctx.types@.len() - i,
        {
            match &ctx.types[i] {
                TypeData::Named { name: n, .. } => {
                    if *n == wanted {
                        return Some(Type { index: i });
                    }
                },
                _ => {},
            }
            i = i + 1;
        }
        None
    }

    fn add_global_typed(&mut self, ctx: &mut Context, name: &str, ptr: Type) -> (g: GlobalValue)
        requires
            old(ctx).wf(),
            old(self).wf(*old(ctx)),
            old(ctx).valid_type(ptr),
            old(ctx).values@.len() + 1 < usize::MAX,
        ensures
            final(ctx).wf(),
            final(self).wf(*final(ctx)),
            final(ctx).grows_from(*old(ctx)),
            final(ctx).types@ == old(ctx).types@,
            final(ctx).blocks@ == old(ctx).blocks@,
            g.index == old(ctx).values@.len(),
            final(ctx).values@ == old(ctx).values@.push(final(ctx).value_at(g.as_value())),
            final(ctx).type_of(g.as_value()) == ptr,
            final(ctx).value_at(g.as_value()).name@ == name@,
            final(ctx).value_at(g.as_value()).kind == (ValueKind::Global { initializer: None }),
            final(self).globals@ == old(self).globals@.push(g),
            final(self).functions@ == old(self).functions@,
            final(self).name == old(self).name,
            final(self).target == old(self).target,
            final(self).data_layout == old(self).data_layout,
    {
        let v = ctx.push_value(
            ValueData { ty: ptr, name: String::from_str(name), kind: ValueKind::Global { initializer: None } },
        );
        proof {
            old(self).lemma_wf_grows(*old(ctx), *ctx);
        }
        let g = GlobalValue { index: v.index };
        self.globals.push(g);
        proof {
            assert forall|k: int| 0 <= k < self.globals@.len() implies ctx.valid_value(
                (#[trigger] self.globals@[k]).as_value(),
            ) && ctx.value_at(self.globals@[k].as_value()).kind is Global by {
                if k < self.globals@.len() - 1 {
                    assert(self.globals@[k] == old(self).globals@[k]);
                }
            }
        }
        g
    }

    /// Add a global variable of the type given; its value is a pointer to it in
    /// the generic address space.
    pub fn add_global(&mut self, ctx: &mut Context, name: &str, ty: Type) -> (g: GlobalValue)
        requires
            old(ctx).wf(),
            old(self).wf(*old(ctx)),
            old(ctx).valid_type(ty),
            old(ctx).types@.len() + 1 < usize::MAX,
            old(ctx).values@.len() + 1 < usize::MAX,
        ensures
            final(ctx).wf(),
            final(self).wf(*final(ctx)),
            final(ctx).grows_from(*old(ctx)),
            final(ctx).types@.len() <= old(ctx).types@.len() + 1,
            final(ctx).blocks@ == old(ctx).blocks@,
            g.index == old(ctx).values@.len(),
            final(ctx).values@ == old(ctx).values@.push(final(ctx).value_at(g.as_value())),
            final(ctx).type_at(final(ctx).type_of(g.as_value())) == (TypeData::Pointer { elem: ty, space: 0 }),
            final(ctx).value_at(g.as_value()).name@ == name@,
            final(ctx).value_at(g.as_value()).kind == (ValueKind::Global { initializer: None }),
            final(self).globals@ == old(self).globals@.push(g),
            final(self).functions@ == old(self).functions@,
    {
        let ptr = Type::pointer_ty(ctx, ty);
        proof {
            old(self).lemma_wf_grows(*old(ctx), *ctx);
        }
        self.add_global_typed(ctx, name, ptr)
    }

    /// Add a global variable of the type given, in the address space given.
    pub fn add_global_in_addr_space(
        &mut self,
        ctx: &mut Context,
        name: &str,
        ty: Type,
        sp: AddressSpace,
    ) -> (g: GlobalValue)
        requires
            old(ctx).wf(),
            old(self).wf(*old(ctx)),
            old(ctx).valid_type(ty),
            old(ctx).types@.len() + 1 < usize::MAX,
            old(ctx).values@.len() + 1 < usize::MAX,
        ensures
            final(ctx).wf(),
            final(self).wf(*final(ctx)),
            final(ctx).grows_from(*old(ctx)),
            final(ctx).types@.len() <= old(ctx).types@.len() + 1,
            final(ctx).blocks@ == old(ctx).blocks@,
            g.index == old(ctx).values@.len(),
            final(ctx).values@ == old(ctx).values@.push(final(ctx).value_at(g.as_value())),
            final(ctx).type_at(final(ctx).type_of(g.as_value())) == (TypeData::Pointer {
                elem: ty,
                space: sp.number_spec(),
            }),
            final(ctx).value_at(g.as_value()).name@ == name@,
            final(ctx).value_at(g.as_value()).kind == (ValueKind::Global { initializer: None }),
            final(self).globals@ == old(self).globals@.push(g),
            final(self).functions@ == old(self).functions@,
    {
        let ptr = Type::pointer_in_space(ctx, ty, sp);
        proof {
            old(self).lemma_wf_grows(*old(ctx), *ctx);
        }
        self.add_global_typed(ctx, name, ptr)
    }

    /// Add a global variable initialised with the value given.
    pub fn add_global_constant(&mut self, ctx: &mut Context, name: &str, val: Value) -> (g: GlobalValue)
        requires
            old(ctx).wf(),
            old(self).wf(*old(ctx)),
            old(ctx).valid_value(val),
            old(ctx).types@.len() + 1 < usize::MAX,
            old(ctx).values@.len() + 1 < usize::MAX,
        ensures
            final(ctx).wf(),
            final(self).wf(*final(ctx)),
            final(ctx).grows_from(*old(ctx)),
            final(ctx).types@.len() <= old(ctx).types@.len() + 1,
            final(ctx).blocks@ == old(ctx).blocks@,
            g.index == old(ctx).values@.len(),
            final(ctx).values@.len() == old(ctx).values@.len() + 1,
            forall|j: int| 0 <= j < old(ctx).values@.len() ==> #[trigger] final(ctx).values@[j] == old(ctx).values@[j],
            final(ctx).type_at(final(ctx).type_of(g.as_value())) == (TypeData::Pointer {
                elem: old(ctx).type_of(val),
                space: 0,
            }),
            final(ctx).value_at(g.as_value()).name@ == name@,
            final(ctx).value_at(g.as_value()).kind == (ValueKind::Global { initializer: Some(val) }),
            final(self).globals@ == old(self).globals@.push(g),
            final(self).functions@ == old(self).functions@,
    {
        proof {
            assert(value_data_ok(ctx.values@[val.index as int], ctx.types@, ctx.values@.len() as int, ctx.blocks@.len() as int));
        }
        let ty = val.get_type(ctx);
        let g = self.add_global(ctx, name, ty);
        let ghost mid = *ctx;
        g.set_initializer(ctx, val);
        proof {
            self.lemma_wf_grows(mid, *ctx);
            assert forall|j: int| 0 <= j < old(ctx).values@.len() implies #[trigger] ctx.values@[j] == old(ctx).values@[j] by {
                assert(ctx.values@[j] == mid.values@[j]);
            }
        }
        g
    }

    /// Iterate through the global variables of the module, in the order they were added.
    pub fn global_values(&self) -> (r: ValueIter<GlobalValue>)
        ensures
            r.wf(),
            r.remaining() == self.globals@,
    {
        let mut items: Vec<GlobalValue> = Vec::new();
        let mut i: usize = 0;
        while i < self.globals.len()
            invariant
                0 <= i <= self.globals@.len(),
                items@ == self.globals@.subrange(0, i as int),
            decreases self.globals@.len() - i,
        {
            items.push(self.globals[i]);
            i = i + 1;
        }
        proof {
            assert(self.globals@.subrange(0, self.globals@.len() as int) =~= self.globals@);
        }
        ValueIter::new(items)
    }

    /// Iterate through the functions of the module, in the order they were added.
    pub fn functions(&self) -> (r: ValueIter<Function>)
        ensures
            r.wf(),
            r.remaining() == self.functions@,
    {
        let mut items: Vec<Function> = Vec::new();
        let mut i: usize = 0;
        while i < self.functions.len()
            invariant
                0 <= i <= self.functions@.len(),
                items@ == self.functions@.subrange(0, i as int),
            decreases self.functions@.len() - i,
        {
            items.push(self.functions[i]);
            i = i + 1;
        }
        proof {
            assert(self.functions@.subrange(0, self.functions@.len() as int) =~= self.functions@);
        }
        ValueIter::new(items)
    }

    /// Tests whether the module is well formed: every block of every function is
    /// ended by exactly one terminator, branches stay within their function, returns
    /// give back what their function returns, and operands come from the same
    /// function or from this module. On failure, returns a description of the
    /// first problem found.
    pub fn verify(&self, ctx: &Context) -> (r: Result<(), String>)
        requires
            ctx.wf(),
            self.wf(*ctx),
        ensures
            r is Ok <==> module_ok(*ctx, *self),
            r is Err ==> r->Err_0@.len() > 0,
    {
        let mut k: usize = 0;
        while k < self.functions.len()
            invariant
                ctx.wf(),
                self.wf(*ctx),
                0 <= k <= self.functions@.len(),
                forall|q: int| 0 <= q < k ==> function_ok(*ctx, *self, #[trigger] self.functions@[q]),
            decreases self.functions@.len() - k,
        {
            let f = self.functions[k];
            match function_problem(ctx, self, f) {
                Some(msg) => {
                    let mut out = String::from_str("function ");
                    proof {
                        reveal_strlit("function ");
                    }
                    out.append(f.get_name(ctx));
                    out.append(": ");
                    out.append(msg);
                    return Err(out);
                },
                None => {},
            }
            k = k + 1;
        }
        Ok(())
    }

    /// Link the functions and globals of `src` into this module; `src` keeps its
    /// lists. Names are merged one by one, in order: a new name is appended; for a
    /// name already present one entry is kept, a definition taking the place of
    /// a declaration. References to an entry merged away resolve by its name (see
    /// `verify`). Fails, changing nothing, when a name would be defined twice.
    pub fn link(&mut self, ctx: &Context, src: &Module) -> (r: Result<(), String>)
        requires
            old(self).wf(*ctx),
            src.wf(*ctx),
        ensures
            r is Err <==> clashes(*ctx, *old(self), *src),
            r is Err ==> r->Err_0@.len() > 0 && *final(self) == *old(self),
            r is Ok ==> function_values(final(self).functions@) == merged(
                *ctx,
                function_values(old(self).functions@),
                function_values(src.functions@),
                src.functions@.len() as int,
            ) && global_values_of(final(self).globals@) == merged(
                *ctx,
                global_values_of(old(self).globals@),
                global_values_of(src.globals@),
                src.globals@.len() as int,
            ) && final(self).name == old(self).name && final(self).target == old(self).target
                && final(self).data_layout == old(self).data_layout,
            final(self).wf(*ctx),
    {
        let src_fns = function_list(&src.functions);
        let dest_fns = function_list(&self.functions);
        let src_gs = global_list(&src.globals);
        let dest_gs = global_list(&self.globals);
        proof {
            assert forall|k: int| 0 <= k < src_fns@.len() implies ctx.is_function_value(#[trigger] src_fns@[k]) by {
                assert(ctx.is_function_value(src.functions@[k].as_value()));
            }
            assert forall|k: int| 0 <= k < dest_fns@.len() implies ctx.is_function_value(#[trigger] dest_fns@[k]) by {
                assert(ctx.is_function_value(self.functions@[k].as_value()));
            }
            assert forall|k: int| 0 <= k < src_gs@.len() implies ctx.valid_value(#[trigger] src_gs@[k])
                && ctx.value_at(src_gs@[k]).kind is Global by {
                assert(ctx.valid_value(src.globals@[k].as_value()));
            }
            assert forall|k: int| 0 <= k < dest_gs@.len() implies ctx.valid_value(#[trigger] dest_gs@[k])
                && ctx.value_at(dest_gs@[k]).kind is Global by {
                assert(ctx.valid_value(self.globals@[k].as_value()));
            }
        }
        let fns = match merge_all(ctx, &dest_fns, &src_fns) {
            Ok(l) => l,
            Err(v) => {
                return Err(twice_defined(ctx, v));
            },
        };
        let gs = match merge_all(ctx, &dest_gs, &src_gs) {
            Ok(l) => l,
            Err(v) => {
                return Err(twice_defined(ctx, v));
            },
        };
        let new_fns = as_functions(&fns);
        let new_gs = as_globals(&gs);
        proof {
            assert forall|k: int| 0 <= k < new_fns@.len() implies ctx.is_function_value(
                (#[trigger] new_fns@[k]).as_value(),
            ) by {
                let x = fns@[k];
                if dest_fns@.contains(x) {
                    let q = choose|q: int| 0 <= q < dest_fns@.len() && dest_fns@[q] == x;
                    assert(ctx.is_function_value(dest_fns@[q]));
                } else {
                    let q = choose|q: int| 0 <= q < src_fns@.len() && src_fns@[q] == x;
                    assert(ctx.is_function_value(src_fns@[q]));
                }
            }
            assert forall|k: int| 0 <= k < new_gs@.len() implies ctx.valid_value(
                (#[trigger] new_gs@[k]).as_value(),
            ) && ctx.value_at(new_gs@[k].as_value()).kind is Global by {
                let x = gs@[k];
                if dest_gs@.contains(x) {
                    let q = choose|q: int| 0 <= q < dest_gs@.len() && dest_gs@[q] == x;
                    assert(ctx.valid_value(dest_gs@[q]));
                } else {
                    let q = choose|q: int| 0 <= q < src_gs@.len() && src_gs@[q] == x;
                    assert(ctx.valid_value(src_gs@[q]));
                }
            }
        }
        self.functions = new_fns;
        self.globals = new_gs;
        Ok(())
    }

    /// Link the functions and globals of `src` into this module, consuming `src`,
    /// as `link` does.
    pub fn link_destroy(&mut self, ctx: &Context, src: Module) -> (r: Result<(), String>)
        requires
            old(self).wf(*ctx),
            src.wf(*ctx),
        ensures
            r is Err <==> clashes(*ctx, *old(self), src),
            r is Err ==> r->Err_0@.len() > 0 && *final(self) == *old(self),
            r is Ok ==> function_values(final(self).functions@) == merged(
                *ctx,
                function_values(old(self).functions@),
                function_values(src.functions@),
                src.functions@.len() as int,
            ) && global_values_of(final(self).globals@) == merged(
                *ctx,
                global_values_of(old(self).globals@),
                global_values_of(src.globals@),
                src.globals@.len() as int,
            ) && final(self).name == old(self).name && final(self).target == old(self).target
                && final(self).data_layout == old(self).data_layout,
            final(self).wf(*ctx),
    {
        self.link(ctx, &src)
    }

    /// Returns the target triple of this module.
    pub fn get_target(&self) -> (r: &str)
        ensures
            r@ == self.target@,
    {
        self.target.as_str()
    }

    /// Set the target triple of this module.
    pub fn set_target(&mut self, target: &str)
        ensures
            final(self).target@ == target@,
            final(self).name == old(self).name,
            final(self).functions == old(self).functions,
            final(self).globals == old(self).globals,
            final(self).data_layout == old(self).data_layout,
    {
        self.target = String::from_str(target);
    }

    /// Returns the data layout of this module.
    pub fn get_data_layout(&self) -> (r: &str)
        ensures
            r@ == self.data_layout@,
    {
        self.data_layout.as_str()
    }

    /// Set the data layout of this module.
    pub fn set_data_layout(&mut self, layout: &str)
        ensures
            final(self).data_layout@ == layout@,
            final(self).name == old(self).name,
            final(self).functions == old(self).functions,
            final(self).globals == old(self).globals,
            final(self).target == old(self).target,
    {
        self.data_layout = String::from_str(layout);
    }
}

} // verus!
