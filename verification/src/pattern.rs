//! Parameter patterns: which names a pattern binds and how deep each lies,
//! the same pattern without `mut` on its bindings, and its text.
use vstd::prelude::*;
use vstd::string::*;
use crate::error::ConfigError;
use crate::text::{join, join_texts, texts};

verus! {

/// The deepest layer at which a binding can be recorded.
pub const MAX_DEPTH: u8 = 255;

/// An irrefutable pattern in parameter position.
#[derive(Debug, PartialEq, Eq)]
pub enum Pat {
    /// A name: `ref mut name @ subpat`, where `ref`, `mut` and the
    /// sub-pattern may each be left out. The sub-pattern is carried as text.
    Ident { by_ref: bool, mutable: bool, name: String, subpat: Option<String> },
    /// `&pat` or `&mut pat`.
    Reference { mutable: bool, pat: Box<Pat> },
    /// `Path { member: pat, .. }`.
    Struct { path: String, fields: Vec<FieldPat>, rest: bool },
    /// `(pat, pat)`.
    Tuple { elems: Vec<Pat> },
    /// `Path(pat, pat)`.
    TupleStruct { path: String, elems: Vec<Pat> },
    /// Any other pattern, by its text. It binds nothing that is looked at.
    Other { text: String },
}

/// One field of a struct pattern.
#[derive(Debug, PartialEq, Eq)]
pub struct FieldPat {
    pub member: String,
    pub pat: Pat,
}

/// What a [`Pat`] stands for. A struct pattern holds its members and their
/// patterns side by side.
pub enum PatView {
    Ident { by_ref: bool, mutable: bool, name: Seq<char>, subpat: Option<Seq<char>> },
    Reference { mutable: bool, pat: Box<PatView> },
    Struct { path: Seq<char>, members: Seq<Seq<char>>, pats: Seq<PatView>, rest: bool },
    Tuple { elems: Seq<PatView> },
    TupleStruct { path: Seq<char>, elems: Seq<PatView> },
    Other { text: Seq<char> },
}

impl Pat {
    /// What this pattern stands for: its view, found by descending into it.
    pub open spec fn model(self) -> PatView
        decreases self,
    {
        match self {
            Pat::Ident { by_ref, mutable, name, subpat } => PatView::Ident {
                by_ref,
                mutable,
                name: name@,
                subpat: match subpat {
                    Some(text) => Some(text@),
                    None => None,
                },
            },
            Pat::Reference { mutable, pat } => PatView::Reference {
                mutable,
                pat: Box::new(pat.model()),
            },
            Pat::Struct { path, fields, rest } => PatView::Struct {
                path: path@,
                members: field_members(fields@),
                pats: field_pats(fields@),
                rest,
            },
            Pat::Tuple { elems } => PatView::Tuple { elems: pat_views(elems@) },
            Pat::TupleStruct { path, elems } => PatView::TupleStruct {
                path: path@,
                elems: pat_views(elems@),
            },
            Pat::Other { text } => PatView::Other { text: text@ },
        }
    }
}

impl View for Pat {
    type V = PatView;

    open spec fn view(&self) -> PatView {
        self.model()
    }
}

/// The views of a sequence of patterns.
pub open spec fn pat_views(list: Seq<Pat>) -> Seq<PatView>
    decreases list,
{
    Seq::new(
        list.len(),
        |i: int|
            if 0 <= i < list.len() {
                list[i].model()
            } else {
                PatView::Other { text: Seq::empty() }
            },
    )
}

/// The views of the patterns of a sequence of fields.
pub open spec fn field_pats(fields: Seq<FieldPat>) -> Seq<PatView>
    decreases fields,
{
    Seq::new(
        fields.len(),
        |i: int|
            if 0 <= i < fields.len() {
                fields[i].pat.model()
            } else {
                PatView::Other { text: Seq::empty() }
            },
    )
}

/// The members that a sequence of fields names.
pub open spec fn field_members(fields: Seq<FieldPat>) -> Seq<Seq<char>> {
    Seq::new(fields.len(), |i: int| fields[i].member@)
}

/// A name that a pattern binds, with the number of layers (references,
/// tuples, structs) between the parameter and the name.
pub type Binding = (Seq<char>, nat);

/// The bindings of a pattern that stands `depth` layers inside a parameter,
/// from left to right.
pub open spec fn bindings(pat: PatView, depth: nat) -> Seq<Binding>
    decreases pat,
{
    match pat {
        PatView::Ident { name, .. } => seq![(name, depth)],
        PatView::Reference { pat, .. } => bindings(*pat, depth + 1),
        PatView::Struct { pats, .. } => bindings_all(pats, depth + 1),
        PatView::Tuple { elems } => bindings_all(elems, depth + 1),
        PatView::TupleStruct { elems, .. } => bindings_all(elems, depth + 1),
        PatView::Other { .. } => Seq::empty(),
    }
}

/// The bindings of several patterns at one depth, in order.
pub open spec fn bindings_all(list: Seq<PatView>, depth: nat) -> Seq<Binding>
    decreases list,
{
    if list.len() == 0 {
        Seq::empty()
    } else {
        bindings_all(list.drop_last(), depth) + bindings(list.last(), depth)
    }
}

/// The number of names in a pattern.
pub open spec fn name_count(pat: PatView) -> nat
    decreases pat,
{
    match pat {
        PatView::Ident { .. } => 1,
        PatView::Reference { pat, .. } => name_count(*pat),
        PatView::Struct { pats, .. } => name_count_all(pats),
        PatView::Tuple { elems } => name_count_all(elems),
        PatView::TupleStruct { elems, .. } => name_count_all(elems),
        PatView::Other { .. } => 0,
    }
}

/// The number of names in several patterns.
pub open spec fn name_count_all(list: Seq<PatView>) -> nat
    decreases list,
{
    if list.len() == 0 {
        0
    } else {
        name_count_all(list.drop_last()) + name_count(list.last())
    }
}

/// Whether a pattern is a plain name: a name without `ref` and without a
/// sub-pattern, marked `mut` or not.
pub open spec fn is_plain_name(pat: PatView) -> bool {
    pat matches PatView::Ident { by_ref: false, subpat: None, .. }
}

/// The patterns directly inside a pattern.
pub open spec fn inner_pats(pat: PatView) -> Seq<PatView> {
    match pat {
        PatView::Reference { pat, .. } => seq![*pat],
        PatView::Struct { pats, .. } => pats,
        PatView::Tuple { elems } => elems,
        PatView::TupleStruct { elems, .. } => elems,
        _ => Seq::empty(),
    }
}

/// Whether a pattern is one layer (a reference, a struct, a tuple or a tuple
/// struct) around plain names.
pub open spec fn wraps_names(pat: PatView) -> bool {
    &&& !(pat is Ident)
    &&& !(pat is Other)
    &&& forall|i: int| 0 <= i < inner_pats(pat).len() ==> #[trigger] inner_pats(pat)[i] is Ident
}

/// The names of a row of plain names, each at `depth`.
pub open spec fn names_at(list: Seq<PatView>, depth: nat) -> Seq<Binding> {
    Seq::new(list.len(), |i: int| (list[i]->Ident_name, depth))
}

/// A pattern binds each of its names once: it has as many bindings as names,
/// at whatever depth it stands.
pub proof fn lemma_bindings_count(pat: PatView, depth: nat)
    ensures
        bindings(pat, depth).len() == name_count(pat),
    decreases pat,
{
    match pat {
        PatView::Reference { pat: inner, .. } => lemma_bindings_count(*inner, depth + 1),
        PatView::Struct { pats, .. } => lemma_bindings_all_count(pats, depth + 1),
        PatView::Tuple { elems } => lemma_bindings_all_count(elems, depth + 1),
        PatView::TupleStruct { elems, .. } => lemma_bindings_all_count(elems, depth + 1),
        _ => {},
    }
}

/// Several patterns have as many bindings as names.
pub proof fn lemma_bindings_all_count(list: Seq<PatView>, depth: nat)
    ensures
        bindings_all(list, depth).len() == name_count_all(list),
    decreases list,
{
    if list.len() > 0 {
        lemma_bindings_all_count(list.drop_last(), depth);
        lemma_bindings_count(list.last(), depth);
    }
}

/// A row of plain names binds each name, in order, at the depth of the row.
pub proof fn lemma_bindings_of_names(list: Seq<PatView>, depth: nat)
    requires
        forall|i: int| 0 <= i < list.len() ==> #[trigger] list[i] is Ident,
    ensures
        bindings_all(list, depth) == names_at(list, depth),
    decreases list.len(),
{
    if list.len() > 0 {
        let init = list.drop_last();
        assert forall|i: int| 0 <= i < init.len() implies #[trigger] init[i] is Ident by {
            assert(init[i] == list[i]);
        }
        lemma_bindings_of_names(init, depth);
        assert(list.last() is Ident);
        assert(names_at(init, depth) + bindings(list.last(), depth) =~= names_at(list, depth));
    } else {
        assert(bindings_all(list, depth) =~= names_at(list, depth));
    }
}

/// A pattern that is one layer around plain names binds each of them, in
/// order, one layer deeper than the pattern stands. This holds alike of a
/// reference, a tuple, a tuple struct and a struct.
pub proof fn lemma_bindings_one_layer(pat: PatView, depth: nat)
    requires
        wraps_names(pat),
    ensures
        bindings(pat, depth) == names_at(inner_pats(pat), depth + 1),
{
    match pat {
        PatView::Reference { pat: inner, .. } => {
            assert(inner_pats(pat)[0] is Ident);
            assert(bindings(*inner, depth + 1) =~= names_at(inner_pats(pat), depth + 1));
        },
        _ => {
            lemma_bindings_of_names(inner_pats(pat), depth + 1);
        },
    }
}

/// Whether every layer of a pattern that stands at `depth` can be counted.
pub open spec fn countable(pat: PatView, depth: nat) -> bool
    decreases pat,
{
    match pat {
        PatView::Ident { .. } => true,
        PatView::Reference { pat, .. } => depth < MAX_DEPTH && countable(*pat, depth + 1),
        PatView::Struct { pats, .. } => depth < MAX_DEPTH && countable_all(pats, depth + 1),
        PatView::Tuple { elems } => depth < MAX_DEPTH && countable_all(elems, depth + 1),
        PatView::TupleStruct { elems, .. } => depth < MAX_DEPTH && countable_all(elems, depth + 1),
        PatView::Other { .. } => true,
    }
}

/// Whether each of several patterns at one depth is countable.
pub open spec fn countable_all(list: Seq<PatView>, depth: nat) -> bool
    decreases list,
{
    forall|i: int| 0 <= i < list.len() ==> countable(#[trigger] list[i], depth)
}

/// The pattern with `mut` taken from every binding. A reference pattern keeps
/// its own `mut`, which is part of the shape and binds nothing.
pub open spec fn without_mut(pat: PatView) -> PatView
    decreases pat,
{
    match pat {
        PatView::Ident { by_ref, name, subpat, .. } => PatView::Ident {
            by_ref,
            mutable: false,
            name,
            subpat,
        },
        PatView::Reference { mutable, pat } => PatView::Reference {
            mutable,
            pat: Box::new(without_mut(*pat)),
        },
        PatView::Struct { path, members, pats, rest } => PatView::Struct {
            path,
            members,
            pats: without_mut_all(pats),
            rest,
        },
        PatView::Tuple { elems } => PatView::Tuple { elems: without_mut_all(elems) },
        PatView::TupleStruct { path, elems } => PatView::TupleStruct {
            path,
            elems: without_mut_all(elems),
        },
        PatView::Other { text } => PatView::Other { text },
    }
}

/// Each of several patterns without `mut` on its bindings.
pub open spec fn without_mut_all(list: Seq<PatView>) -> Seq<PatView>
    decreases list,
{
    Seq::new(
        list.len(),
        |i: int|
            if 0 <= i < list.len() {
                without_mut(list[i])
            } else {
                PatView::Other { text: Seq::empty() }
            },
    )
}

/// Whether some binding of a pattern is marked `mut`.
pub open spec fn binds_mutably(pat: PatView) -> bool
    decreases pat,
{
    match pat {
        PatView::Ident { mutable, .. } => mutable,
        PatView::Reference { pat, .. } => binds_mutably(*pat),
        PatView::Struct { pats, .. } => some_binds_mutably(pats),
        PatView::Tuple { elems } => some_binds_mutably(elems),
        PatView::TupleStruct { elems, .. } => some_binds_mutably(elems),
        PatView::Other { .. } => false,
    }
}

/// Whether some binding of several patterns is marked `mut`.
pub open spec fn some_binds_mutably(list: Seq<PatView>) -> bool
    decreases list,
{
    exists|i: int| 0 <= i < list.len() && binds_mutably(#[trigger] list[i])
}

/// A pattern without `mut` marks no binding `mut`.
pub proof fn lemma_without_mut_binds_plainly(pat: PatView)
    ensures
        !binds_mutably(without_mut(pat)),
    decreases pat,
{
    match pat {
        PatView::Reference { pat: inner, .. } => lemma_without_mut_binds_plainly(*inner),
        PatView::Struct { pats, .. } => lemma_without_mut_all_bind_plainly(pats),
        PatView::Tuple { elems } => lemma_without_mut_all_bind_plainly(elems),
        PatView::TupleStruct { elems, .. } => lemma_without_mut_all_bind_plainly(elems),
        _ => {},
    }
}

/// Several patterns without `mut` mark no binding `mut`.
pub proof fn lemma_without_mut_all_bind_plainly(list: Seq<PatView>)
    ensures
        !some_binds_mutably(without_mut_all(list)),
    decreases list,
{
    let plain = without_mut_all(list);
    assert forall|i: int| 0 <= i < plain.len() implies !binds_mutably(#[trigger] plain[i]) by {
        lemma_without_mut_binds_plainly(list[i]);
    }
}

/// Taking `mut` from a pattern changes neither the names it binds nor their
/// depths: the wrapper's parameters bind what the written ones bind.
pub proof fn lemma_without_mut_keeps_bindings(pat: PatView, depth: nat)
    ensures
        bindings(without_mut(pat), depth) == bindings(pat, depth),
        countable(without_mut(pat), depth) == countable(pat, depth),
    decreases pat,
{
    match pat {
        PatView::Reference { pat: inner, .. } => {
            lemma_without_mut_keeps_bindings(*inner, depth + 1);
        },
        PatView::Struct { pats, .. } => lemma_without_mut_all_keep_bindings(pats, depth + 1),
        PatView::Tuple { elems } => lemma_without_mut_all_keep_bindings(elems, depth + 1),
        PatView::TupleStruct { elems, .. } => lemma_without_mut_all_keep_bindings(elems, depth + 1),
        _ => {},
    }
}

/// Taking `mut` from several patterns changes neither the names they bind
/// nor their depths.
pub proof fn lemma_without_mut_all_keep_bindings(list: Seq<PatView>, depth: nat)
    ensures
        bindings_all(without_mut_all(list), depth) == bindings_all(list, depth),
        countable_all(without_mut_all(list), depth) == countable_all(list, depth),
    decreases list,
{
    let plain = without_mut_all(list);
    assert forall|i: int| 0 <= i < list.len() implies countable(#[trigger] plain[i], depth)
        == countable(list[i], depth) by {
        lemma_without_mut_keeps_bindings(list[i], depth);
    }
    assert(countable_all(plain, depth) == countable_all(list, depth)) by {
        if countable_all(list, depth) {
            assert forall|i: int| 0 <= i < plain.len() implies countable(
                #[trigger] plain[i],
                depth,
            ) by {
                assert(countable(list[i], depth));
            }
        }
        if countable_all(plain, depth) {
            assert forall|i: int| 0 <= i < list.len() implies countable(
                #[trigger] list[i],
                depth,
            ) by {
                assert(countable(plain[i], depth));
            }
        }
    }
    if list.len() > 0 {
        assert(plain.drop_last() =~= without_mut_all(list.drop_last()));
        lemma_without_mut_all_keep_bindings(list.drop_last(), depth);
        lemma_without_mut_keeps_bindings(list.last(), depth);
        assert(plain.last() == without_mut(list.last()));
    }
}

/// The word `ref` with its space, where it is wanted.
pub open spec fn ref_word(by_ref: bool) -> Seq<char> {
    if by_ref {
        "ref "@
    } else {
        Seq::empty()
    }
}

/// The sub-pattern of a name behind its `@`, where there is one.
pub open spec fn subpat_text(subpat: Option<Seq<char>>) -> Seq<char> {
    match subpat {
        Some(text) => " @ "@ + text,
        None => Seq::empty(),
    }
}

/// The word `mut` with its space, where it is wanted.
pub open spec fn mut_word(mutable: bool) -> Seq<char> {
    if mutable {
        "mut "@
    } else {
        Seq::empty()
    }
}

/// The text of a pattern. A tuple of one element keeps its comma, so that
/// the text is a tuple again wherever it is read.
pub open spec fn pat_text(pat: PatView) -> Seq<char>
    decreases pat,
{
    match pat {
        PatView::Ident { by_ref, mutable, name, subpat } => ref_word(by_ref) + mut_word(mutable)
            + name + subpat_text(subpat),
        PatView::Reference { mutable, pat } => "&"@ + mut_word(mutable) + pat_text(*pat),
        PatView::Struct { path, members, pats, rest } => path + " { "@ + join(
            field_texts(members, pats),
            ", "@,
        ) + rest_text(rest, pats.len()) + " }"@,
        PatView::Tuple { elems } => "("@ + join(pat_texts(elems), ", "@) + single_comma(
            elems.len(),
        ) + ")"@,
        PatView::TupleStruct { path, elems } => path + "("@ + join(pat_texts(elems), ", "@)
            + ")"@,
        PatView::Other { text } => text,
    }
}

/// The comma that tells a tuple of one element from a bracketed pattern.
pub open spec fn single_comma(len: nat) -> Seq<char> {
    if len == 1 {
        ","@
    } else {
        Seq::empty()
    }
}

/// The `..` of a struct pattern that leaves fields out, after `fields` fields.
pub open spec fn rest_text(rest: bool, fields: nat) -> Seq<char> {
    if !rest {
        Seq::empty()
    } else if fields == 0 {
        ".."@
    } else {
        ", .."@
    }
}

/// The texts of several patterns.
pub open spec fn pat_texts(list: Seq<PatView>) -> Seq<Seq<char>>
    decreases list,
{
    Seq::new(
        list.len(),
        |i: int|
            if 0 <= i < list.len() {
                pat_text(list[i])
            } else {
                Seq::empty()
            },
    )
}

/// The texts of the fields of a struct pattern: each member, a colon and its
/// pattern.
pub open spec fn field_texts(members: Seq<Seq<char>>, pats: Seq<PatView>) -> Seq<Seq<char>>
    decreases pats,
{
    Seq::new(
        pats.len(),
        |i: int|
            if 0 <= i < pats.len() {
                members[i] + ": "@ + pat_text(pats[i])
            } else {
                Seq::empty()
            },
    )
}

/// The bindings that a list of names with depths stands for.
pub open spec fn binding_views(found: Seq<(String, u8)>) -> Seq<Binding> {
    Seq::new(found.len(), |i: int| (found[i].0@, found[i].1 as nat))
}

/// The bindings that an outcome stands for.
pub open spec fn found_outcome(r: Result<Vec<(String, u8)>, ConfigError>) -> Result<
    Seq<Binding>,
    ConfigError,
> {
    match r {
        Ok(found) => Ok(binding_views(found@)),
        Err(e) => Err(e),
    }
}

/// The bindings of a pattern that stands at `depth`, where every layer of it
/// can be counted.
pub open spec fn counted_bindings(pat: PatView, depth: nat) -> Result<Seq<Binding>, ConfigError> {
    if countable(pat, depth) {
        Ok(bindings(pat, depth))
    } else {
        Err(ConfigError::PatternTooDeep)
    }
}

/// Lists the names that a pattern binds, each with its depth, for a pattern
/// that itself stands at `depth` (0 for a parameter). Fails where a layer of
/// the pattern lies deeper than a depth can count.
pub fn param_names(pat: &Pat, depth: u8) -> (r: Result<Vec<(String, u8)>, ConfigError>)
    ensures
        found_outcome(r) == counted_bindings(pat@, depth as nat),
    decreases pat,
{
    match pat {
        Pat::Ident { name, .. } => {
            let mut found: Vec<(String, u8)> = Vec::new();
            found.push((name.clone(), depth));
            assert(binding_views(found@) =~= bindings(pat@, depth as nat));
            Ok(found)
        },
        Pat::Reference { pat: inner, .. } => {
            if depth == MAX_DEPTH {
                Err(ConfigError::PatternTooDeep)
            } else {
                param_names(inner, depth + 1)
            }
        },
        Pat::Struct { fields, .. } => {
            if depth == MAX_DEPTH {
                Err(ConfigError::PatternTooDeep)
            } else {
                names_in_fields(fields, depth + 1)
            }
        },
        Pat::Tuple { elems } => {
            if depth == MAX_DEPTH {
                Err(ConfigError::PatternTooDeep)
            } else {
                names_in_all(elems, depth + 1)
            }
        },
        Pat::TupleStruct { elems, .. } => {
            if depth == MAX_DEPTH {
                Err(ConfigError::PatternTooDeep)
            } else {
                names_in_all(elems, depth + 1)
            }
        },
        Pat::Other { .. } => {
            let found: Vec<(String, u8)> = Vec::new();
            assert(binding_views(found@) =~= bindings(pat@, depth as nat));
            Ok(found)
        },
    }
}

/// The bindings of several patterns at one depth.
fn names_in_all(list: &Vec<Pat>, depth: u8) -> (r: Result<Vec<(String, u8)>, ConfigError>)
    ensures
        match r {
            Ok(found) => countable_all(pat_views(list@), depth as nat) && binding_views(found@)
                == bindings_all(pat_views(list@), depth as nat),
            Err(e) => e == ConfigError::PatternTooDeep && !countable_all(
                pat_views(list@),
                depth as nat,
            ),
        },
    decreases list,
{
    let ghost views = pat_views(list@);
    let mut found: Vec<(String, u8)> = Vec::new();
    let mut i: usize = 0;
    assert(binding_views(found@) =~= bindings_all(views.take(0), depth as nat));
    while i < list.len()
        invariant
            i <= list.len(),
            views == pat_views(list@),
            countable_all(views.take(i as int), depth as nat),
            binding_views(found@) == bindings_all(views.take(i as int), depth as nat),
        decreases list.len() - i,
    {
        proof {
            assert(views.take(i + 1).drop_last() =~= views.take(i as int));
            assert(views.take(i + 1).last() == list@[i as int]@);
        }
        match param_names(&list[i], depth) {
            Ok(more) => {
                let mut more = more;
                let ghost before = found@;
                let ghost added = more@;
                found.append(&mut more);
                proof {
                    assert(binding_views(found@) =~= binding_views(before) + binding_views(added));
                    assert forall|j: int| 0 <= j < views.take(i + 1).len() implies countable(
                        #[trigger] views.take(i + 1)[j],
                        depth as nat,
                    ) by {
                        if j < i {
                            assert(views.take(i + 1)[j] == views.take(i as int)[j]);
                        }
                    }
                }
            },
            Err(e) => {
                assert(views[i as int] == list@[i as int]@);
                return Err(e);
            },
        }
        i = i + 1;
    }
    assert(views.take(list.len() as int) =~= views);
    Ok(found)
}

/// The bindings of the patterns of several fields at one depth.
fn names_in_fields(fields: &Vec<FieldPat>, depth: u8) -> (r: Result<
    Vec<(String, u8)>,
    ConfigError,
>)
    ensures
        match r {
            Ok(found) => countable_all(field_pats(fields@), depth as nat) && binding_views(found@)
                == bindings_all(field_pats(fields@), depth as nat),
            Err(e) => e == ConfigError::PatternTooDeep && !countable_all(
                field_pats(fields@),
                depth as nat,
            ),
        },
    decreases fields,
{
    let ghost views = field_pats(fields@);
    let mut found: Vec<(String, u8)> = Vec::new();
    let mut i: usize = 0;
    assert(binding_views(found@) =~= bindings_all(views.take(0), depth as nat));
    while i < fields.len()
        invariant
            i <= fields.len(),
            views == field_pats(fields@),
            countable_all(views.take(i as int), depth as nat),
            binding_views(found@) == bindings_all(views.take(i as int), depth as nat),
        decreases fields.len() - i,
    {
        proof {
            assert(views.take(i + 1).drop_last() =~= views.take(i as int));
            assert(views.take(i + 1).last() == fields@[i as int].pat@);
        }
        match param_names(&fields[i].pat, depth) {
            Ok(more) => {
                let mut more = more;
                let ghost before = found@;
                let ghost added = more@;
                found.append(&mut more);
                proof {
                    assert(binding_views(found@) =~= binding_views(before) + binding_views(added));
                    assert forall|j: int| 0 <= j < views.take(i + 1).len() implies countable(
                        #[trigger] views.take(i + 1)[j],
                        depth as nat,
                    ) by {
                        if j < i {
                            assert(views.take(i + 1)[j] == views.take(i as int)[j]);
                        }
                    }
                }
            },
            Err(e) => {
                assert(views[i as int] == fields@[i as int].pat@);
                return Err(e);
            },
        }
        i = i + 1;
    }
    assert(views.take(fields.len() as int) =~= views);
    Ok(found)
}

impl Pat {
    /// This pattern with `mut` taken from every binding.
    pub fn stripped(&self) -> (r: Pat)
        ensures
            r@ == without_mut(self@),
        decreases self,
    {
        match self {
            Pat::Ident { by_ref, name, subpat, .. } => Pat::Ident {
                by_ref: *by_ref,
                mutable: false,
                name: name.clone(),
                subpat: match subpat {
                    Some(text) => Some(text.clone()),
                    None => None,
                },
            },
            Pat::Reference { mutable, pat } => Pat::Reference {
                mutable: *mutable,
                pat: Box::new(pat.stripped()),
            },
            Pat::Struct { path, fields, rest } => {
                let plain = stripped_fields(fields);
                assert(field_pats(plain@) =~= without_mut_all(field_pats(fields@)));
                assert(field_members(plain@) =~= field_members(fields@));
                Pat::Struct { path: path.clone(), fields: plain, rest: *rest }
            },
            Pat::Tuple { elems } => {
                let plain = stripped_all(elems);
                assert(pat_views(plain@) =~= without_mut_all(pat_views(elems@)));
                Pat::Tuple { elems: plain }
            },
            Pat::TupleStruct { path, elems } => {
                let plain = stripped_all(elems);
                assert(pat_views(plain@) =~= without_mut_all(pat_views(elems@)));
                Pat::TupleStruct { path: path.clone(), elems: plain }
            },
            Pat::Other { text } => Pat::Other { text: text.clone() },
        }
    }

    /// Writes this pattern out.
    pub fn to_text(&self) -> (r: String)
        ensures
            r@ == pat_text(self@),
        decreases self,
    {
        match self {
            Pat::Ident { by_ref, mutable, name, subpat } => {
                let mut out = String::new();
                if *by_ref {
                    out.append("ref ");
                }
                assert(out@ =~= ref_word(*by_ref));
                out.append(mut_text(*mutable));
                out.append(name.as_str());
                match subpat {
                    Some(text) => {
                        let mut tail = String::from_str(" @ ");
                        tail.append(text.as_str());
                        out.append(tail.as_str());
                    },
                    None => {
                        assert(out@ + Seq::<char>::empty() =~= out@);
                    },
                }
                out
            },
            Pat::Reference { mutable, pat } => {
                let mut out = String::from_str("&");
                out.append(mut_text(*mutable));
                out.append(pat.to_text().as_str());
                out
            },
            Pat::Struct { path, fields, rest } => {
                let parts = texts_of_fields(fields);
                assert(texts(parts@) =~= field_texts(field_members(fields@), field_pats(fields@)));
                let mut out = path.clone();
                out.append(" { ");
                out.append(join_texts(&parts, ", ").as_str());
                if *rest {
                    if fields.len() == 0 {
                        out.append("..");
                    } else {
                        out.append(", ..");
                    }
                } else {
                    assert(out@ + Seq::<char>::empty() =~= out@);
                }
                out.append(" }");
                out
            },
            Pat::Tuple { elems } => {
                let parts = texts_of_all(elems);
                assert(texts(parts@) =~= pat_texts(pat_views(elems@)));
                let mut out = String::from_str("(");
                out.append(join_texts(&parts, ", ").as_str());
                if elems.len() == 1 {
                    out.append(",");
                } else {
                    assert(out@ + Seq::<char>::empty() =~= out@);
                }
                out.append(")");
                out
            },
            Pat::TupleStruct { path, elems } => {
                let parts = texts_of_all(elems);
                assert(texts(parts@) =~= pat_texts(pat_views(elems@)));
                let mut out = path.clone();
                out.append("(");
                out.append(join_texts(&parts, ", ").as_str());
                out.append(")");
                out
            },
            Pat::Other { text } => text.clone(),
        }
    }
}

/// The word `mut` with its space, or nothing.
fn mut_text(mutable: bool) -> (r: &'static str)
    ensures
        r@ == mut_word(mutable),
{
    if mutable {
        "mut "
    } else {
        proof {
            reveal_strlit("");
        }
        assert(""@ =~= Seq::<char>::empty());
        ""
    }
}

/// Each of several patterns without `mut` on its bindings.
fn stripped_all(list: &Vec<Pat>) -> (r: Vec<Pat>)
    ensures
        r@.len() == list@.len(),
        forall|j: int| 0 <= j < list@.len() ==> r@[j]@ == without_mut(list@[j]@),
    decreases list,
{
    let mut out: Vec<Pat> = Vec::new();
    let mut i: usize = 0;
    while i < list.len()
        invariant
            i <= list.len(),
            out@.len() == i,
            forall|j: int| 0 <= j < i ==> out@[j]@ == without_mut(list@[j]@),
        decreases list.len() - i,
    {
        out.push(list[i].stripped());
        i = i + 1;
    }
    out
}

/// Each of several fields with its pattern stripped of `mut`.
fn stripped_fields(fields: &Vec<FieldPat>) -> (r: Vec<FieldPat>)
    ensures
        r@.len() == fields@.len(),
        forall|j: int|
            0 <= j < fields@.len() ==> r@[j].pat@ == without_mut(fields@[j].pat@) && r@[j].member@
                == fields@[j].member@,
    decreases fields,
{
    let mut out: Vec<FieldPat> = Vec::new();
    let mut i: usize = 0;
    while i < fields.len()
        invariant
            i <= fields.len(),
            out@.len() == i,
            forall|j: int|
                0 <= j < i ==> out@[j].pat@ == without_mut(fields@[j].pat@) && out@[j].member@
                    == fields@[j].member@,
        decreases fields.len() - i,
    {
        let field = &fields[i];
        out.push(FieldPat { member: field.member.clone(), pat: field.pat.stripped() });
        i = i + 1;
    }
    out
}

/// The texts of several patterns.
fn texts_of_all(list: &Vec<Pat>) -> (r: Vec<String>)
    ensures
        r@.len() == list@.len(),
        forall|j: int| 0 <= j < list@.len() ==> r@[j]@ == pat_text(list@[j]@),
    decreases list,
{
    let mut out: Vec<String> = Vec::new();
    let mut i: usize = 0;
    while i < list.len()
        invariant
            i <= list.len(),
            out@.len() == i,
            forall|j: int| 0 <= j < i ==> out@[j]@ == pat_text(list@[j]@),
        decreases list.len() - i,
    {
        out.push(list[i].to_text());
        i = i + 1;
    }
    out
}

/// The texts of several fields.
fn texts_of_fields(fields: &Vec<FieldPat>) -> (r: Vec<String>)
    ensures
        r@.len() == fields@.len(),
        forall|j: int|
            0 <= j < fields@.len() ==> r@[j]@ == fields@[j].member@ + ": "@ + pat_text(
                fields@[j].pat@,
            ),
    decreases fields,
{
    let mut out: Vec<String> = Vec::new();
    let mut i: usize = 0;
    while i < fields.len()
        invariant
            i <= fields.len(),
            out@.len() == i,
            forall|j: int|
                0 <= j < i ==> out@[j]@ == fields@[j].member@ + ": "@ + pat_text(fields@[j].pat@),
        decreases fields.len() - i,
    {
        let field = &fields[i];
        let mut part = field.member.clone();
        part.append(": ");
        part.append(field.pat.to_text().as_str());
        out.push(part);
        i = i + 1;
    }
    out
}

} // verus!
