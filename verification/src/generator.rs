//! Assembly of the generated module.
//!
//! The generated module is modelled as an ordered sequence of items: the glue
//! re-export and the loader, the pass-through items, and for every extracted
//! function its pointer type, its global slot, and a checked/unchecked
//! wrapper pair. Rendering turns that sequence into the emitted text.

use vstd::prelude::*;

use crate::bundle::BundleModel;
use crate::bundle::LoadingStrategy;
use crate::bundle::StrategyModel;
use crate::bundle::hex_of;
use crate::bundle::md5_digest_of;
use crate::bundle::spec_byte_list;
use crate::parse::BoundFunction;
use crate::parse::FnModel;
use crate::parse::Param;
use crate::parse::ParamModel;
use crate::parse::Parsed;
use crate::parse::ParsedModel;
use crate::parse::spec_foreign_kw;

verus! {

impl Clone for Param {
    fn clone(&self) -> (r: Self)
        ensures
            r@ == self@,
    {
        Param { name: self.name.clone(), ty: self.ty.clone() }
    }
}

impl Clone for BoundFunction {
    fn clone(&self) -> (r: Self)
        ensures
            r@ == self@,
    {
        let mut params: Vec<Param> = Vec::new();
        let mut i: usize = 0;
        while i < self.params.len()
            invariant
                i <= self.params.len(),
                params.deep_view() =~= self.params.deep_view().take(i as int),
            decreases self.params.len() - i,
        {
            let ghost prev = params.deep_view();
            let p = self.params[i].clone();
            params.push(p);
            proof {
                assert(params.deep_view() =~= prev + seq![p@]);
                assert(self.params.deep_view().take(i as int + 1) =~= self.params.deep_view().take(
                    i as int,
                ) + seq![self.params.deep_view()[i as int]]);
                assert(self.params.deep_view()[i as int] == self.params@[i as int]@);
                assert(params.deep_view() =~= self.params.deep_view().take(i as int + 1));
            }
            i = i + 1;
        }
        let ret = match &self.ret {
            Option::Some(t) => Option::Some(t.clone()),
            Option::None => Option::None,
        };
        let r = BoundFunction {
            ident: self.ident.clone(),
            params,
            ret,
            variadic: self.variadic,
        };
        proof {
            assert(self.params.deep_view().take(self.params@.len() as int)
                =~= self.params.deep_view());
            assert(r@.params =~= self@.params);
        }
        r
    }
}

/// How the loader of the generated module acquires the library, after any
/// embedded payload has been rendered: either the consumer supplies a path,
/// or the rendered byte constant and its content hash are carried along.
pub enum LoaderKind {
    Manual,
    ManualBundle { constant: String, hash: String },
    ImplicitBundle { constant: String, hash: String },
}

/// The mathematical view of a [`LoaderKind`].
pub ghost enum LoaderKindModel {
    Manual,
    ManualBundle { constant: Seq<char>, hash: Seq<char> },
    ImplicitBundle { constant: Seq<char>, hash: Seq<char> },
}

impl View for LoaderKind {
    type V = LoaderKindModel;

    open spec fn view(&self) -> LoaderKindModel {
        match self {
            LoaderKind::Manual => LoaderKindModel::Manual,
            LoaderKind::ManualBundle { constant, hash } => LoaderKindModel::ManualBundle {
                constant: constant@,
                hash: hash@,
            },
            LoaderKind::ImplicitBundle { constant, hash } => LoaderKindModel::ImplicitBundle {
                constant: constant@,
                hash: hash@,
            },
        }
    }
}

/// One item of the generated module.
pub enum ModuleItem {
    /// The re-export that makes the loader of the glue module visible.
    GlueUse,
    /// The loader, together with the names whose symbols it resolves.
    Loader { kind: LoaderKind, names: Vec<String> },
    /// A constant, struct or type-alias item carried through unchanged.
    PassThrough(String),
    /// The function-pointer type of one extracted function.
    PtrType(BoundFunction),
    /// The mutable global slot of one extracted function, by name.
    PtrSlot(String),
    /// The development-build wrapper that fails on an empty slot.
    CheckedWrapper(BoundFunction),
    /// The optimized-build wrapper that indirects unconditionally.
    UncheckedWrapper(BoundFunction),
}

/// The mathematical view of a [`ModuleItem`].
pub ghost enum ItemModel {
    GlueUse,
    Loader { kind: LoaderKindModel, names: Seq<Seq<char>> },
    PassThrough(Seq<char>),
    PtrType(FnModel),
    PtrSlot(Seq<char>),
    CheckedWrapper(FnModel),
    UncheckedWrapper(FnModel),
}

impl View for ModuleItem {
    type V = ItemModel;

    open spec fn view(&self) -> ItemModel {
        match self {
            ModuleItem::GlueUse => ItemModel::GlueUse,
            ModuleItem::Loader { kind, names } => ItemModel::Loader {
                kind: kind@,
                names: names.deep_view(),
            },
            ModuleItem::PassThrough(t) => ItemModel::PassThrough(t@),
            ModuleItem::PtrType(f) => ItemModel::PtrType(f@),
            ModuleItem::PtrSlot(n) => ItemModel::PtrSlot(n@),
            ModuleItem::CheckedWrapper(f) => ItemModel::CheckedWrapper(f@),
            ModuleItem::UncheckedWrapper(f) => ItemModel::UncheckedWrapper(f@),
        }
    }
}

impl DeepView for ModuleItem {
    type V = ItemModel;

    open spec fn deep_view(&self) -> ItemModel {
        self.view()
    }
}

/// The generated module: an ordered sequence of items.
pub struct GeneratedModule {
    pub items: Vec<ModuleItem>,
}

impl View for GeneratedModule {
    type V = Seq<ItemModel>;

    open spec fn view(&self) -> Seq<ItemModel> {
        self.items.deep_view()
    }
}

/// The exported names of the extracted functions, in order.
pub open spec fn spec_fn_names(fns: Seq<FnModel>) -> Seq<Seq<char>> {
    fns.map_values(|f: FnModel| f.name)
}

/// The four items emitted for one extracted function.
pub open spec fn spec_items_for_fn(f: FnModel) -> Seq<ItemModel> {
    seq![
        ItemModel::PtrType(f),
        ItemModel::PtrSlot(f.name),
        ItemModel::CheckedWrapper(f),
        ItemModel::UncheckedWrapper(f),
    ]
}

/// The per-function items of the whole module, in function order.
pub open spec fn spec_fn_items(fns: Seq<FnModel>) -> Seq<ItemModel>
    decreases fns.len(),
{
    if fns.len() == 0 {
        Seq::empty()
    } else {
        spec_items_for_fn(fns[0]) + spec_fn_items(fns.drop_first())
    }
}

/// Pass-through texts as module items, in order.
pub open spec fn spec_pass_items(ts: Seq<Seq<char>>) -> Seq<ItemModel> {
    ts.map_values(|t: Seq<char>| ItemModel::PassThrough(t))
}

/// Whether the strategy embeds a bundle that is only a file reference, so
/// that generation cannot embed its bytes.
pub open spec fn strategy_file_backed(st: StrategyModel) -> bool {
    match st {
        StrategyModel::Manual => false,
        StrategyModel::ManuallyLoadedBundle(b) => b is File,
        StrategyModel::ImplicitlyLoadedBundle(b) => b is File,
    }
}

/// The loader kind of a strategy whose bundle, if any, is a byte payload:
/// the embedded constant is the payload's decimal byte list and the hash is
/// the lowercase hexadecimal of the payload's digest.
pub open spec fn spec_loader_kind(st: StrategyModel) -> LoaderKindModel {
    match st {
        StrategyModel::Manual => LoaderKindModel::Manual,
        StrategyModel::ManuallyLoadedBundle(b) => match b {
            BundleModel::RawBytes(bs) => LoaderKindModel::ManualBundle {
                constant: spec_byte_list(bs),
                hash: hex_of(md5_digest_of(bs)),
            },
            BundleModel::File(_) => LoaderKindModel::Manual,
        },
        StrategyModel::ImplicitlyLoadedBundle(b) => match b {
            BundleModel::RawBytes(bs) => LoaderKindModel::ImplicitBundle {
                constant: spec_byte_list(bs),
                hash: hex_of(md5_digest_of(bs)),
            },
            BundleModel::File(_) => LoaderKindModel::Manual,
        },
    }
}

/// The items of the generated module, in order: the loader surface (with the
/// glue re-export for the callable strategies), the pass-through constants,
/// structs and type aliases, and the per-function artifacts.
pub open spec fn spec_module(st: StrategyModel, p: ParsedModel) -> Seq<ItemModel> {
    let loader = ItemModel::Loader {
        kind: spec_loader_kind(st),
        names: spec_fn_names(p.functions),
    };
    let prefix = if st is ImplicitlyLoadedBundle {
        seq![loader]
    } else {
        seq![ItemModel::GlueUse, loader]
    };
    prefix + spec_pass_items(p.consts) + spec_pass_items(p.structs) + spec_pass_items(p.aliases)
        + spec_fn_items(p.functions)
}


/// Taking one more element extends the name sequence by that function's name.
proof fn lemma_fn_names_snoc(fns: Seq<FnModel>, k: int)
    requires
        0 <= k < fns.len(),
    ensures
        spec_fn_names(fns.take(k + 1)) =~= spec_fn_names(fns.take(k)) + seq![fns[k].name],
{
    let lhs = spec_fn_names(fns.take(k + 1));
    let rhs = spec_fn_names(fns.take(k)) + seq![fns[k].name];
    assert forall|i: int| 0 <= i < lhs.len() implies lhs[i] == rhs[i] by {
        assert(fns.take(k + 1)[i] == fns[i]);
        if i < k {
            assert(fns.take(k)[i] == fns[i]);
        }
    }
}

/// Taking one more element extends the pass-through items by that text.
proof fn lemma_pass_items_snoc(ts: Seq<Seq<char>>, k: int)
    requires
        0 <= k < ts.len(),
    ensures
        spec_pass_items(ts.take(k + 1)) =~= spec_pass_items(ts.take(k)) + seq![
            ItemModel::PassThrough(ts[k]),
        ],
{
    let lhs = spec_pass_items(ts.take(k + 1));
    let rhs = spec_pass_items(ts.take(k)) + seq![ItemModel::PassThrough(ts[k])];
    assert forall|i: int| 0 <= i < lhs.len() implies lhs[i] == rhs[i] by {
        assert(ts.take(k + 1)[i] == ts[i]);
        if i < k {
            assert(ts.take(k)[i] == ts[i]);
        }
    }
}

/// Appends the four items of one extracted function: its pointer type, its
/// slot, and its checked and unchecked wrappers, in that order.
pub fn append_items(module_items: &mut Vec<ModuleItem>, func: &BoundFunction)
    ensures
        final(module_items).deep_view() == old(module_items).deep_view() + spec_items_for_fn(
            func@,
        ),
{
    module_items.push(ModuleItem::PtrType(func.clone()));
    module_items.push(ModuleItem::PtrSlot(func.name()));
    module_items.push(ModuleItem::CheckedWrapper(func.clone()));
    module_items.push(ModuleItem::UncheckedWrapper(func.clone()));
    proof {
        assert(final(module_items).deep_view() =~= old(module_items).deep_view()
            + spec_items_for_fn(func@));
    }
}

/// Builds the generated module for one extraction result under one strategy.
///
/// Fails exactly when the strategy embeds a file-backed bundle, whose bytes
/// this stage cannot read; on success the module is exactly
/// [`spec_module`] of the strategy and the extraction result.
pub fn generate_bindings_module(loading_strategy: &LoadingStrategy, parsed: &Parsed) -> (r: Result<
    GeneratedModule,
    crate::Error,
>)
    ensures
        match r {
            Ok(m) => !strategy_file_backed(loading_strategy@) && m@ == spec_module(
                loading_strategy@,
                parsed@,
            ),
            Err(e) => strategy_file_backed(loading_strategy@) && e
                == crate::Error::BundleFileUnread,
        },
{
    let kind = match loading_strategy {
        LoadingStrategy::Manual => LoaderKind::Manual,
        LoadingStrategy::ManuallyLoadedBundle(b) => match b.create_bundle_constant() {
            Ok(parts) => LoaderKind::ManualBundle { constant: parts.0, hash: parts.1 },
            Err(e) => {
                return Err(e);
            },
        },
        LoadingStrategy::ImplicitlyLoadedBundle(b) => match b.create_bundle_constant() {
            Ok(parts) => LoaderKind::ImplicitBundle { constant: parts.0, hash: parts.1 },
            Err(e) => {
                return Err(e);
            },
        },
    };
    let mut names: Vec<String> = Vec::new();
    let mut i: usize = 0;
    while i < parsed.functions.len()
        invariant
            i <= parsed.functions.len(),
            names.deep_view() =~= spec_fn_names(parsed@.functions.take(i as int)),
        decreases parsed.functions.len() - i,
    {
        let ghost prevn = names.deep_view();
        let n = parsed.functions[i].name();
        names.push(n);
        proof {
            assert(names.deep_view() =~= prevn + seq![n@]);
            assert(n@ == parsed@.functions[i as int].name);
            lemma_fn_names_snoc(parsed@.functions, i as int);
            assert(names.deep_view() =~= spec_fn_names(parsed@.functions.take(i as int + 1)));
        }
        i = i + 1;
    }
    proof {
        assert(parsed@.functions.take(parsed@.functions.len() as int) =~= parsed@.functions);
        assert(names.deep_view() =~= spec_fn_names(parsed@.functions));
    }
    let mut items: Vec<ModuleItem> = Vec::new();
    let implicit = loading_strategy.is_implicitly_loaded_bundle();
    if !implicit {
        items.push(ModuleItem::GlueUse);
    }
    items.push(ModuleItem::Loader { kind, names });
    let ghost prefix_items = items.deep_view();
    let mut k: usize = 0;
    while k < parsed.const_items.len()
        invariant
            k <= parsed.const_items.len(),
            items.deep_view() =~= prefix_items + spec_pass_items(
                parsed@.consts.take(k as int),
            ),
        decreases parsed.const_items.len() - k,
    {
        let ghost prev = items.deep_view();
        let t = parsed.const_items[k].clone();
        items.push(ModuleItem::PassThrough(t));
        proof {
            assert(items.deep_view() =~= prev + seq![ItemModel::PassThrough(t@)]);
            assert(t@ == parsed@.consts[k as int]);
            lemma_pass_items_snoc(parsed@.consts, k as int);
            assert(items.deep_view() =~= prefix_items + spec_pass_items(
                parsed@.consts.take(k as int + 1),
            ));
        }
        k = k + 1;
    }
    proof {
        assert(parsed@.consts.take(parsed@.consts.len() as int) =~= parsed@.consts);
    }
    let ghost after_consts = items.deep_view();
    let mut k2: usize = 0;
    while k2 < parsed.struct_items.len()
        invariant
            k2 <= parsed.struct_items.len(),
            items.deep_view() =~= after_consts + spec_pass_items(
                parsed@.structs.take(k2 as int),
            ),
        decreases parsed.struct_items.len() - k2,
    {
        let ghost prev = items.deep_view();
        let t = parsed.struct_items[k2].clone();
        items.push(ModuleItem::PassThrough(t));
        proof {
            assert(items.deep_view() =~= prev + seq![ItemModel::PassThrough(t@)]);
            assert(t@ == parsed@.structs[k2 as int]);
            lemma_pass_items_snoc(parsed@.structs, k2 as int);
            assert(items.deep_view() =~= after_consts + spec_pass_items(
                parsed@.structs.take(k2 as int + 1),
            ));
        }
        k2 = k2 + 1;
    }
    proof {
        assert(parsed@.structs.take(parsed@.structs.len() as int) =~= parsed@.structs);
    }
    let ghost after_structs = items.deep_view();
    let mut k3: usize = 0;
    while k3 < parsed.type_items.len()
        invariant
            k3 <= parsed.type_items.len(),
            items.deep_view() =~= after_structs + spec_pass_items(
                parsed@.aliases.take(k3 as int),
            ),
        decreases parsed.type_items.len() - k3,
    {
        let ghost prev = items.deep_view();
        let t = parsed.type_items[k3].clone();
        items.push(ModuleItem::PassThrough(t));
        proof {
            assert(items.deep_view() =~= prev + seq![ItemModel::PassThrough(t@)]);
            assert(t@ == parsed@.aliases[k3 as int]);
            lemma_pass_items_snoc(parsed@.aliases, k3 as int);
            assert(items.deep_view() =~= after_structs + spec_pass_items(
                parsed@.aliases.take(k3 as int + 1),
            ));
        }
        k3 = k3 + 1;
    }
    proof {
        assert(parsed@.aliases.take(parsed@.aliases.len() as int) =~= parsed@.aliases);
    }
    let ghost after_pass = items.deep_view();
    let mut k4: usize = 0;
    while k4 < parsed.functions.len()
        invariant
            k4 <= parsed.functions.len(),
            items.deep_view() =~= after_pass + spec_fn_items(
                parsed@.functions.take(k4 as int),
            ),
        decreases parsed.functions.len() - k4,
    {
        let ghost prev = items.deep_view();
        append_items(&mut items, &parsed.functions[k4]);
        proof {
            assert(items.deep_view() == prev + spec_items_for_fn(parsed@.functions[k4 as int]));
            let fns = parsed@.functions;
            lemma_fn_items_snoc(fns.take(k4 as int + 1));
            assert(fns.take(k4 as int + 1).drop_last() =~= fns.take(k4 as int));
            assert(fns.take(k4 as int + 1).last() == fns[k4 as int]);
            assert(items.deep_view() =~= after_pass + spec_fn_items(fns.take(k4 as int + 1)));
        }
        k4 = k4 + 1;
    }
    proof {
        assert(parsed@.functions.take(parsed@.functions.len() as int) =~= parsed@.functions);
        assert(items.deep_view() =~= after_pass + spec_fn_items(parsed@.functions));
        assert(items.deep_view() =~= spec_module(loading_strategy@, parsed@));
    }
    Ok(GeneratedModule { items })
}

/// Splitting the last function off the per-function item sequence.
proof fn lemma_fn_items_snoc(fns: Seq<FnModel>)
    requires
        fns.len() > 0,
    ensures
        spec_fn_items(fns) == spec_fn_items(fns.drop_last()) + spec_items_for_fn(fns.last()),
    decreases fns.len(),
{
    if fns.len() == 1 {
        assert(fns.drop_last() =~= Seq::<FnModel>::empty());
        assert(fns.drop_first() =~= Seq::<FnModel>::empty());
        assert(spec_fn_items(fns.drop_last()) + spec_items_for_fn(fns.last())
            =~= spec_items_for_fn(fns[0]) + Seq::<ItemModel>::empty());
        assert(spec_fn_items(fns) =~= spec_items_for_fn(fns[0]) + Seq::<ItemModel>::empty());
    } else {
        lemma_fn_items_snoc(fns.drop_first());
        assert(fns.drop_first().drop_last() =~= fns.drop_last().drop_first());
        assert(fns.drop_first().last() == fns.last());
        assert(fns.drop_last()[0] == fns[0]);
        assert(spec_fn_items(fns.drop_last()) == spec_items_for_fn(fns[0]) + spec_fn_items(
            fns.drop_last().drop_first(),
        ));
        assert(spec_fn_items(fns) =~= spec_fn_items(fns.drop_last()) + spec_items_for_fn(
            fns.last(),
        ));
    }
}

/// The comma-separated parameter types, from the second one on.
pub open spec fn spec_ty_rest(ps: Seq<ParamModel>) -> Seq<char>
    decreases ps.len(),
{
    if ps.len() == 0 {
        Seq::empty()
    } else {
        ", "@ + ps[0].ty + spec_ty_rest(ps.drop_first())
    }
}

/// The comma-separated parameter types of a signature.
pub open spec fn spec_ty_list(ps: Seq<ParamModel>) -> Seq<char> {
    if ps.len() == 0 {
        Seq::empty()
    } else {
        ps[0].ty + spec_ty_rest(ps.drop_first())
    }
}

/// The comma-separated `name: type` pairs, from the second one on.
pub open spec fn spec_param_rest(ps: Seq<ParamModel>) -> Seq<char>
    decreases ps.len(),
{
    if ps.len() == 0 {
        Seq::empty()
    } else {
        ", "@ + ps[0].name + ": "@ + ps[0].ty + spec_param_rest(ps.drop_first())
    }
}

/// The comma-separated `name: type` pairs of a signature.
pub open spec fn spec_param_list(ps: Seq<ParamModel>) -> Seq<char> {
    if ps.len() == 0 {
        Seq::empty()
    } else {
        ps[0].name + ": "@ + ps[0].ty + spec_param_rest(ps.drop_first())
    }
}

/// The comma-separated argument names, from the second one on.
pub open spec fn spec_arg_rest(ps: Seq<ParamModel>) -> Seq<char>
    decreases ps.len(),
{
    if ps.len() == 0 {
        Seq::empty()
    } else {
        ", "@ + ps[0].name + spec_arg_rest(ps.drop_first())
    }
}

/// The comma-separated argument names of a call through the slot.
pub open spec fn spec_arg_list(ps: Seq<ParamModel>) -> Seq<char> {
    if ps.len() == 0 {
        Seq::empty()
    } else {
        ps[0].name + spec_arg_rest(ps.drop_first())
    }
}

/// The trailing ellipsis of a variadic signature, if any.
pub open spec fn spec_variadic_suffix(f: FnModel) -> Seq<char> {
    if f.variadic {
        if f.params.len() == 0 {
            "..."@
        } else {
            ", ..."@
        }
    } else {
        Seq::empty()
    }
}

/// The rendered return type, empty for the unit return.
pub open spec fn spec_ret_suffix(ret: Option<Seq<char>>) -> Seq<char> {
    match ret {
        Some(t) => " -> "@ + t,
        None => Seq::empty(),
    }
}

/// The function-pointer type of one extracted function: its parameter and
/// return types under the C calling convention, names dropped.
pub open spec fn spec_fn_type_item(f: FnModel) -> Seq<char> {
    "#[allow(non_camel_case_types)]\ntype "@ + f.name + "_fn = unsafe "@ + spec_foreign_kw() + " \"C\" fn("@ + spec_ty_list(f.params)
        + spec_variadic_suffix(f) + ")"@ + spec_ret_suffix(f.ret) + ";\n"@
}

/// The mutable global slot of one extracted function, initially null.
pub open spec fn spec_slot_item(n: Seq<char>) -> Seq<char> {
    "#[allow(non_upper_case_globals)]\nstatic mut "@ + n + "_ptr: *const "@ + n + "_fn = std::ptr::null();\n"@
}

/// The development-build wrapper: the original call signature, failing with a
/// message that names the function when its slot was never filled.
pub open spec fn spec_checked_item(f: FnModel) -> Seq<char> {
    "#[cfg(debug_assertions)]\npub unsafe "@ + spec_foreign_kw() + " \"C\" fn "@ + f.name + "("@ + spec_param_list(
        f.params,
    ) + spec_variadic_suffix(f) + ")"@ + spec_ret_suffix(f.ret) + " {\n    if "@ + f.name
        + "_ptr.is_null() {\n        panic!(\"attempt to call '"@ + f.name + "' but it has not been loaded from it's library.\");\n    } else {\n        "@ + f.name + "_ptr.read()("@ + spec_arg_list(f.params)
        + ")\n    }\n}\n"@
}

/// The optimized-build wrapper: the original call signature, indirecting
/// through the slot unconditionally.
pub open spec fn spec_unchecked_item(f: FnModel) -> Seq<char> {
    "#[cfg(not(debug_assertions))]\npub unsafe "@ + spec_foreign_kw() + " \"C\" fn "@ + f.name + "("@ + spec_param_list(
        f.params,
    ) + spec_variadic_suffix(f) + ")"@ + spec_ret_suffix(f.ret) + " {\n    "@ + f.name
        + "_ptr.read()("@ + spec_arg_list(f.params) + ")\n}\n"@
}

/// The text of one module item.
pub open spec fn spec_render_item(it: ItemModel) -> Seq<char> {
    match it {
        ItemModel::GlueUse => "pub use glue::*;\n"@,
        ItemModel::Loader { kind, names } => crate::glue::spec_loader_text(kind, names),
        ItemModel::PassThrough(t) => t + "\n"@,
        ItemModel::PtrType(f) => spec_fn_type_item(f),
        ItemModel::PtrSlot(n) => spec_slot_item(n),
        ItemModel::CheckedWrapper(f) => spec_checked_item(f),
        ItemModel::UncheckedWrapper(f) => spec_unchecked_item(f),
    }
}

/// The text of the whole module: its items in order.
pub open spec fn spec_render_items(its: Seq<ItemModel>) -> Seq<char>
    decreases its.len(),
{
    if its.len() == 0 {
        Seq::empty()
    } else {
        spec_render_item(its[0]) + spec_render_items(its.drop_first())
    }
}

fn push_ty_list(out: &mut String, params: &Vec<Param>)
    ensures
        final(out)@ == old(out)@ + spec_ty_list(params.deep_view()),
{
    let mut i: usize = 0;
    while i < params.len()
        invariant
            i <= params@.len(),
            i == 0 ==> out@ == old(out)@,
            i > 0 ==> out@ + spec_ty_rest(params.deep_view().skip(i as int)) == old(out)@
                + spec_ty_list(params.deep_view()),
        decreases params@.len() - i,
    {
        let ghost prev = out@;
        if i > 0 {
            out.append(", ");
        }
        out.append(params[i].ty.as_str());
        proof {
            let dv = params.deep_view();
            let tail = dv.skip(i as int);
            assert(tail[0] == dv[i as int]);
            assert(tail.drop_first() =~= dv.skip(i as int + 1));
            assert(dv[i as int] == params@[i as int]@);
            if i == 0 {
                assert(out@ =~= prev + dv[0].ty);
                assert(out@ + spec_ty_rest(dv.skip(1)) =~= old(out)@ + spec_ty_list(dv));
            } else {
                assert(out@ =~= prev + (", "@ + dv[i as int].ty));
                assert(out@ + spec_ty_rest(dv.skip(i as int + 1)) =~= prev + spec_ty_rest(tail));
            }
        }
        i = i + 1;
    }
    proof {
        if params@.len() == 0 {
            assert(spec_ty_list(params.deep_view()).len() == 0);
            assert(out@ =~= old(out)@ + spec_ty_list(params.deep_view()));
        } else {
            assert(params.deep_view().skip(params@.len() as int) =~= Seq::<ParamModel>::empty());
            assert(out@ + Seq::<char>::empty() =~= out@);
        }
    }
}

fn push_param_list(out: &mut String, params: &Vec<Param>)
    ensures
        final(out)@ == old(out)@ + spec_param_list(params.deep_view()),
{
    let mut i: usize = 0;
    while i < params.len()
        invariant
            i <= params@.len(),
            i == 0 ==> out@ == old(out)@,
            i > 0 ==> out@ + spec_param_rest(params.deep_view().skip(i as int)) == old(out)@
                + spec_param_list(params.deep_view()),
        decreases params@.len() - i,
    {
        let ghost prev = out@;
        if i > 0 {
            out.append(", ");
        }
        out.append(params[i].name.as_str());
        out.append(": ");
        out.append(params[i].ty.as_str());
        proof {
            let dv = params.deep_view();
            let tail = dv.skip(i as int);
            assert(tail[0] == dv[i as int]);
            assert(tail.drop_first() =~= dv.skip(i as int + 1));
            assert(dv[i as int] == params@[i as int]@);
            if i == 0 {
                assert(out@ =~= prev + (dv[0].name + ": "@ + dv[0].ty));
                assert(out@ + spec_param_rest(dv.skip(1)) =~= old(out)@ + spec_param_list(dv));
            } else {
                assert(out@ =~= prev + (", "@ + dv[i as int].name + ": "@ + dv[i
                    as int].ty));
                assert(out@ + spec_param_rest(dv.skip(i as int + 1)) =~= prev + spec_param_rest(
                    tail,
                ));
            }
        }
        i = i + 1;
    }
    proof {
        if params@.len() == 0 {
            assert(spec_param_list(params.deep_view()).len() == 0);
            assert(out@ =~= old(out)@ + spec_param_list(params.deep_view()));
        } else {
            assert(params.deep_view().skip(params@.len() as int) =~= Seq::<ParamModel>::empty());
            assert(out@ + Seq::<char>::empty() =~= out@);
        }
    }
}

fn push_arg_list(out: &mut String, params: &Vec<Param>)
    ensures
        final(out)@ == old(out)@ + spec_arg_list(params.deep_view()),
{
    let mut i: usize = 0;
    while i < params.len()
        invariant
            i <= params@.len(),
            i == 0 ==> out@ == old(out)@,
            i > 0 ==> out@ + spec_arg_rest(params.deep_view().skip(i as int)) == old(out)@
                + spec_arg_list(params.deep_view()),
        decreases params@.len() - i,
    {
        let ghost prev = out@;
        if i > 0 {
            out.append(", ");
        }
        out.append(params[i].name.as_str());
        proof {
            let dv = params.deep_view();
            let tail = dv.skip(i as int);
            assert(tail[0] == dv[i as int]);
            assert(tail.drop_first() =~= dv.skip(i as int + 1));
            assert(dv[i as int] == params@[i as int]@);
            if i == 0 {
                assert(out@ =~= prev + dv[0].name);
                assert(out@ + spec_arg_rest(dv.skip(1)) =~= old(out)@ + spec_arg_list(dv));
            } else {
                assert(out@ =~= prev + (", "@ + dv[i as int].name));
                assert(out@ + spec_arg_rest(dv.skip(i as int + 1)) =~= prev + spec_arg_rest(tail));
            }
        }
        i = i + 1;
    }
    proof {
        if params@.len() == 0 {
            assert(spec_arg_list(params.deep_view()).len() == 0);
            assert(out@ =~= old(out)@ + spec_arg_list(params.deep_view()));
        } else {
            assert(params.deep_view().skip(params@.len() as int) =~= Seq::<ParamModel>::empty());
            assert(out@ + Seq::<char>::empty() =~= out@);
        }
    }
}

fn push_variadic(out: &mut String, f: &BoundFunction)
    ensures
        final(out)@ == old(out)@ + spec_variadic_suffix(f@),
{
    if f.variadic {
        if f.params.len() == 0 {
            out.append("...");
        } else {
            out.append(", ...");
        }
    } else {
        proof {
            assert(out@ =~= old(out)@ + spec_variadic_suffix(f@));
        }
    }
}

fn push_ret(out: &mut String, f: &BoundFunction)
    ensures
        final(out)@ == old(out)@ + spec_ret_suffix(f@.ret),
{
    match &f.ret {
        Option::Some(t) => {
            out.append(" -> ");
            out.append(t.as_str());
            proof {
                assert(out@ =~= old(out)@ + spec_ret_suffix(f@.ret));
            }
        },
        Option::None => {
            proof {
                assert(out@ =~= old(out)@ + spec_ret_suffix(f@.ret));
            }
        },
    }
}

/// Renders the function-pointer type of one extracted function.
pub fn render_fn_type(f: &BoundFunction) -> (r: String)
    ensures
        r@ == spec_fn_type_item(f@),
{
    let fkw = crate::parse::foreign_kw();
    let mut out = String::new();
    out.append("#[allow(non_camel_case_types)]\ntype ");
    out.append(f.ident.as_str());
    out.append("_fn = unsafe ");
    out.append(fkw.as_str());
    out.append(" \"C\" fn(");
    push_ty_list(&mut out, &f.params);
    push_variadic(&mut out, f);
    out.append(")");
    push_ret(&mut out, f);
    out.append(";\n");
    proof {
        assert(out@ =~= spec_fn_type_item(f@));
    }
    out
}

/// Renders the mutable global slot of one extracted function.
pub fn render_slot(name: &String) -> (r: String)
    ensures
        r@ == spec_slot_item(name@),
{
    let mut out = String::new();
    out.append("#[allow(non_upper_case_globals)]\nstatic mut ");
    out.append(name.as_str());
    out.append("_ptr: *const ");
    out.append(name.as_str());
    out.append("_fn = std::ptr::null();\n");
    proof {
        assert(out@ =~= spec_slot_item(name@));
    }
    out
}

/// Renders the development-build wrapper of one extracted function.
pub fn render_checked(f: &BoundFunction) -> (r: String)
    ensures
        r@ == spec_checked_item(f@),
{
    let fkw = crate::parse::foreign_kw();
    let mut out = String::new();
    out.append("#[cfg(debug_assertions)]\npub unsafe ");
    out.append(fkw.as_str());
    out.append(" \"C\" fn ");
    out.append(f.ident.as_str());
    out.append("(");
    push_param_list(&mut out, &f.params);
    push_variadic(&mut out, f);
    out.append(")");
    push_ret(&mut out, f);
    out.append(" {\n    if ");
    out.append(f.ident.as_str());
    out.append("_ptr.is_null() {\n        panic!(\"attempt to call '");
    out.append(f.ident.as_str());
    out.append("' but it has not been loaded from it's library.\");\n    } else {\n        ");
    out.append(f.ident.as_str());
    out.append("_ptr.read()(");
    push_arg_list(&mut out, &f.params);
    out.append(")\n    }\n}\n");
    proof {
        assert(out@ =~= spec_checked_item(f@));
    }
    out
}

/// Renders the optimized-build wrapper of one extracted function.
pub fn render_unchecked(f: &BoundFunction) -> (r: String)
    ensures
        r@ == spec_unchecked_item(f@),
{
    let fkw = crate::parse::foreign_kw();
    let mut out = String::new();
    out.append("#[cfg(not(debug_assertions))]\npub unsafe ");
    out.append(fkw.as_str());
    out.append(" \"C\" fn ");
    out.append(f.ident.as_str());
    out.append("(");
    push_param_list(&mut out, &f.params);
    push_variadic(&mut out, f);
    out.append(")");
    push_ret(&mut out, f);
    out.append(" {\n    ");
    out.append(f.ident.as_str());
    out.append("_ptr.read()(");
    push_arg_list(&mut out, &f.params);
    out.append(")\n}\n");
    proof {
        assert(out@ =~= spec_unchecked_item(f@));
    }
    out
}

/// Renders one module item.
fn render_item(it: &ModuleItem) -> (r: String)
    ensures
        r@ == spec_render_item(it@),
{
    match it {
        ModuleItem::GlueUse => {
            let mut out = String::new();
            out.append("pub use glue::*;\n");
            out
        },
        ModuleItem::Loader { kind, names } => crate::glue::generate_libloading_glue(kind, names),
        ModuleItem::PassThrough(t) => {
            let mut out = t.clone();
            out.append("\n");
            out
        },
        ModuleItem::PtrType(f) => render_fn_type(f),
        ModuleItem::PtrSlot(n) => render_slot(n),
        ModuleItem::CheckedWrapper(f) => render_checked(f),
        ModuleItem::UncheckedWrapper(f) => render_unchecked(f),
    }
}

impl GeneratedModule {
    /// Renders the whole module: the text of its items, in order.
    pub fn render(&self) -> (r: String)
        ensures
            r@ == spec_render_items(self@),
    {
        let mut out = String::new();
        let mut i: usize = 0;
        proof {
            assert(self@.skip(0) =~= self@);
        }
        while i < self.items.len()
            invariant
                i <= self.items@.len(),
                out@ + spec_render_items(self@.skip(i as int)) == spec_render_items(self@),
            decreases self.items@.len() - i,
        {
            let ghost prev = out@;
            let piece = render_item(&self.items[i]);
            out.append(piece.as_str());
            proof {
                let dv = self@;
                let tail = dv.skip(i as int);
                assert(tail[0] == dv[i as int]);
                assert(tail.drop_first() =~= dv.skip(i as int + 1));
                assert(dv[i as int] == self.items@[i as int]@);
                assert(out@ =~= prev + spec_render_item(dv[i as int]));
                assert(out@ + spec_render_items(dv.skip(i as int + 1)) =~= prev
                    + spec_render_items(tail));
            }
            i = i + 1;
        }
        proof {
            assert(self@.skip(self.items@.len() as int) =~= Seq::<ItemModel>::empty());
            assert(out@ + Seq::<char>::empty() =~= out@);
        }
        out
    }
}

/// A per-function artifact: a pointer type, a slot, or a wrapper.
pub open spec fn is_fn_artifact(it: ItemModel) -> bool {
    it is PtrType || it is PtrSlot || it is CheckedWrapper || it is UncheckedWrapper
}

/// The number of items that precede the pass-through items of a module.
pub open spec fn spec_prefix_len(st: StrategyModel) -> int {
    if st is ImplicitlyLoadedBundle {
        1
    } else {
        2
    }
}

/// The per-function items stand in function order, four per function:
/// its pointer type, its slot, its checked wrapper and its unchecked
/// wrapper, each carrying that function's signature.
pub proof fn lemma_fn_items_shape(fns: Seq<FnModel>)
    ensures
        spec_fn_items(fns).len() == 4 * fns.len(),
        forall|i: int|
            0 <= i < fns.len() ==> #[trigger] spec_fn_items(fns)[4 * i] == ItemModel::PtrType(
                fns[i],
            ) && spec_fn_items(fns)[4 * i + 1] == ItemModel::PtrSlot(fns[i].name) && spec_fn_items(
                fns,
            )[4 * i + 2] == ItemModel::CheckedWrapper(fns[i]) && spec_fn_items(fns)[4 * i + 3]
                == ItemModel::UncheckedWrapper(fns[i]),
    decreases fns.len(),
{
    if fns.len() > 0 {
        lemma_fn_items_shape(fns.drop_first());
        let rest = fns.drop_first();
        assert forall|i: int|
            0 <= i < fns.len() implies #[trigger] spec_fn_items(fns)[4 * i] == ItemModel::PtrType(
            fns[i],
        ) && spec_fn_items(fns)[4 * i + 1] == ItemModel::PtrSlot(fns[i].name) && spec_fn_items(
            fns,
        )[4 * i + 2] == ItemModel::CheckedWrapper(fns[i]) && spec_fn_items(fns)[4 * i + 3]
            == ItemModel::UncheckedWrapper(fns[i]) by {
            if i > 0 {
                assert(spec_fn_items(rest)[4 * (i - 1)] == ItemModel::PtrType(rest[i - 1]));
                assert(spec_fn_items(rest)[4 * (i - 1) + 1] == ItemModel::PtrSlot(
                    rest[i - 1].name,
                ));
                assert(spec_fn_items(rest)[4 * (i - 1) + 2] == ItemModel::CheckedWrapper(
                    rest[i - 1],
                ));
                assert(spec_fn_items(rest)[4 * (i - 1) + 3] == ItemModel::UncheckedWrapper(
                    rest[i - 1],
                ));
                assert(rest[i - 1] == fns[i]);
                assert(spec_fn_items(fns)[4 * i] == spec_fn_items(rest)[4 * i - 4]);
                assert(spec_fn_items(fns)[4 * i + 1] == spec_fn_items(rest)[4 * i - 3]);
                assert(spec_fn_items(fns)[4 * i + 2] == spec_fn_items(rest)[4 * i - 2]);
                assert(spec_fn_items(fns)[4 * i + 3] == spec_fn_items(rest)[4 * i - 1]);
            }
        }
    }
}

/// The position of the first artifact of function `i` in the module.
pub open spec fn spec_fn_base(st: StrategyModel, p: ParsedModel, i: int) -> int {
    spec_prefix_len(st) + p.consts.len() + p.structs.len() + p.aliases.len() + 4 * i
}

/// Every extracted function owns exactly one pointer type, one slot and one
/// checked/unchecked wrapper pair in the generated module, in function
/// order and carrying the original signature; no per-function artifact
/// stands anywhere else.
pub proof fn lemma_artifacts_per_function(st: StrategyModel, p: ParsedModel)
    ensures
        spec_module(st, p).len() == spec_prefix_len(st) + p.consts.len() + p.structs.len()
            + p.aliases.len() + 4 * p.functions.len(),
        forall|k: int|
            0 <= k < spec_prefix_len(st) + p.consts.len() + p.structs.len() + p.aliases.len()
                ==> !is_fn_artifact(#[trigger] spec_module(st, p)[k]),
        forall|i: int|
            0 <= i < p.functions.len() ==> spec_module(st, p)[spec_fn_base(st, p, i)]
                == ItemModel::PtrType(#[trigger] p.functions[i]) && spec_module(st, p)[spec_fn_base(
                st,
                p,
                i,
            ) + 1] == ItemModel::PtrSlot(p.functions[i].name) && spec_module(st, p)[spec_fn_base(
                st,
                p,
                i,
            ) + 2] == ItemModel::CheckedWrapper(p.functions[i]) && spec_module(st, p)[spec_fn_base(
                st,
                p,
                i,
            ) + 3] == ItemModel::UncheckedWrapper(p.functions[i]),
{
    lemma_fn_items_shape(p.functions);
    let m = spec_module(st, p);
    let npass = p.consts.len() + p.structs.len() + p.aliases.len();
    assert(spec_pass_items(p.consts).len() == p.consts.len());
    assert(spec_pass_items(p.structs).len() == p.structs.len());
    assert(spec_pass_items(p.aliases).len() == p.aliases.len());
    assert forall|k: int| 0 <= k < spec_prefix_len(st) + npass implies !is_fn_artifact(
        #[trigger] m[k],
    ) by {
        if k >= spec_prefix_len(st) {
            let q = k - spec_prefix_len(st);
            if q < p.consts.len() {
                assert(m[k] == spec_pass_items(p.consts)[q]);
            } else if q < p.consts.len() + p.structs.len() {
                assert(m[k] == spec_pass_items(p.structs)[q - p.consts.len()]);
            } else {
                assert(m[k] == spec_pass_items(p.aliases)[q - p.consts.len() - p.structs.len()]);
            }
        }
    }
    assert forall|i: int| 0 <= i < p.functions.len() implies m[spec_fn_base(st, p, i)]
        == ItemModel::PtrType(#[trigger] p.functions[i]) && m[spec_fn_base(st, p, i) + 1]
        == ItemModel::PtrSlot(p.functions[i].name) && m[spec_fn_base(st, p, i) + 2]
        == ItemModel::CheckedWrapper(p.functions[i]) && m[spec_fn_base(st, p, i) + 3]
        == ItemModel::UncheckedWrapper(p.functions[i]) by {
        let base = spec_fn_base(st, p, i);
        assert(m[base] == spec_fn_items(p.functions)[4 * i]);
        assert(m[base + 1] == spec_fn_items(p.functions)[4 * i + 1]);
        assert(m[base + 2] == spec_fn_items(p.functions)[4 * i + 2]);
        assert(m[base + 3] == spec_fn_items(p.functions)[4 * i + 3]);
    }
}

/// A loader surface the consumer can call: the manual strategies have one,
/// the implicit strategy has none.
pub open spec fn loader_callable(kind: LoaderKindModel) -> bool {
    kind is Manual || kind is ManualBundle
}

/// The strategy decides the surface of the generated module: the manual
/// strategies expose exactly one callable loader behind the glue re-export;
/// the implicit strategy exposes no callable loader and no re-export, its
/// loader runs from the pre-main constructor. Either way the module holds
/// exactly one loader, and it resolves exactly the extracted functions'
/// names, in order.
pub proof fn lemma_strategy_surface(st: StrategyModel, p: ParsedModel)
    requires
        !strategy_file_backed(st),
    ensures
        spec_module(st, p)[spec_prefix_len(st) - 1] == (ItemModel::Loader {
            kind: spec_loader_kind(st),
            names: spec_fn_names(p.functions),
        }),
        spec_fn_names(p.functions).len() == p.functions.len(),
        forall|i: int|
            0 <= i < p.functions.len() ==> #[trigger] spec_fn_names(p.functions)[i]
                == p.functions[i].name,
        st is ImplicitlyLoadedBundle ==> !loader_callable(spec_loader_kind(st)) && (forall|k: int|
            0 <= k < spec_module(st, p).len() ==> !(#[trigger] spec_module(st, p)[k]
                is GlueUse)),
        !(st is ImplicitlyLoadedBundle) ==> loader_callable(spec_loader_kind(st)) && spec_module(
            st,
            p,
        )[0] == ItemModel::GlueUse,
        forall|k: int|
            0 <= k < spec_module(st, p).len() && k != spec_prefix_len(st) - 1 ==> !(
            #[trigger] spec_module(st, p)[k] is Loader),
        forall|k: int|
            0 < k < spec_module(st, p).len() ==> !(#[trigger] spec_module(st, p)[k] is GlueUse),
{
    lemma_fn_items_shape(p.functions);
    let m = spec_module(st, p);
    let npass = p.consts.len() + p.structs.len() + p.aliases.len();
    assert forall|k: int| 0 <= k < m.len() && k != spec_prefix_len(st) - 1 implies !(
    #[trigger] m[k] is Loader) by {
        if k >= spec_prefix_len(st) {
            lemma_module_item_kinds(st, p, k);
        }
    }
    assert forall|k: int| 0 < k < m.len() implies !(#[trigger] m[k] is GlueUse) by {
        if k >= spec_prefix_len(st) {
            lemma_module_item_kinds(st, p, k);
        }
    }
    if st is ImplicitlyLoadedBundle {
        assert forall|k: int| 0 <= k < m.len() implies !(#[trigger] m[k] is GlueUse) by {
            if k >= spec_prefix_len(st) {
                lemma_module_item_kinds(st, p, k);
            }
        }
    }
}

/// Any module item past the loader prefix is a pass-through item or a
/// per-function artifact.
proof fn lemma_module_item_kinds(st: StrategyModel, p: ParsedModel, k: int)
    requires
        spec_prefix_len(st) <= k < spec_module(st, p).len(),
    ensures
        spec_module(st, p)[k] is PassThrough || is_fn_artifact(spec_module(st, p)[k]),
{
    lemma_fn_items_shape(p.functions);
    let m = spec_module(st, p);
    let q = k - spec_prefix_len(st);
    if q < p.consts.len() {
        assert(m[k] == spec_pass_items(p.consts)[q]);
    } else if q < p.consts.len() + p.structs.len() {
        assert(m[k] == spec_pass_items(p.structs)[q - p.consts.len()]);
    } else if q < p.consts.len() + p.structs.len() + p.aliases.len() {
        assert(m[k] == spec_pass_items(p.aliases)[q - p.consts.len() - p.structs.len()]);
    } else {
        let j = q - p.consts.len() - p.structs.len() - p.aliases.len();
        let i = j / 4;
        assert(0 <= i < p.functions.len() && 4 * i <= j < 4 * i + 4) by (nonlinear_arith)
            requires
                0 <= j < 4 * p.functions.len(),
                i == j / 4,
        ;
        assert(m[k] == spec_fn_items(p.functions)[j]);
        if j == 4 * i {
            assert(spec_fn_items(p.functions)[4 * i] == ItemModel::PtrType(p.functions[i]));
        } else if j == 4 * i + 1 {
            assert(spec_fn_items(p.functions)[4 * i + 1] == ItemModel::PtrSlot(
                p.functions[i].name,
            ));
        } else if j == 4 * i + 2 {
            assert(spec_fn_items(p.functions)[4 * i + 2] == ItemModel::CheckedWrapper(
                p.functions[i],
            ));
        } else {
            assert(spec_fn_items(p.functions)[4 * i + 3] == ItemModel::UncheckedWrapper(
                p.functions[i],
            ));
        }
    }
}

} // verus!
