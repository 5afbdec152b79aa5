//! Content modifiers: markers in the markdown that turn into Typst commands,
//! resolved against the list of modifiers that a template ignores.

use vstd::prelude::*;
use crate::strmap::StrMap;
use crate::text::{opt_view, push_char, string_views};

verus! {

/// Whether a modifier is written inline or as a block of its own.
#[derive(Clone, Copy, Debug, PartialEq, Eq, Structural)]
pub enum ModifierType {
    Inline,
    Block,
}

/// What a modifier becomes when the template ignores it.
#[derive(Clone, Copy, Debug, PartialEq, Eq, Structural)]
pub enum OnIgnore {
    /// Dropped from the output.
    Remove,
    /// Replaced by a line break.
    Newline,
    /// The marker text stays as it is.
    Keep,
}

/// A modifier definition.
#[derive(Clone, Debug)]
pub struct ModifierDef {
    /// The text that the user writes in the markdown.
    pub marker: String,
    /// What the modifier does, for people.
    pub description: String,
    /// The Typst markup that the modifier produces.
    pub typst: String,
    /// What happens when a template ignores the modifier.
    pub on_ignore: OnIgnore,
    /// Inline or block.
    pub modifier_type: ModifierType,
}

/// A modifier after the template's ignore list has been applied.
#[derive(Clone, Debug)]
pub struct ResolvedModifier {
    /// The modifier's id (its key in the registry).
    pub id: String,
    /// The text to look for.
    pub marker: String,
    /// What the marker becomes; `None` keeps the marker as it is.
    pub effective_typst: Option<String>,
    /// Inline or block.
    pub modifier_type: ModifierType,
}

impl ResolvedModifier {
    /// A copy equal to `self`.
    pub fn duplicate(&self) -> (r: Self)
        ensures
            r == *self,
    {
        ResolvedModifier {
            id: self.id.clone(),
            marker: self.marker.clone(),
            effective_typst: match &self.effective_typst {
                Some(s) => Some(s.clone()),
                None => None,
            },
            modifier_type: self.modifier_type,
        }
    }
}

/// All modifier definitions, keyed by modifier id.
pub type ModifierRegistry = StrMap<ModifierDef>;

/// The effective output of `def` when the template does (`ignored`) or does not ignore it.
pub open spec fn effective_output(def: ModifierDef, ignored: bool) -> Option<Seq<char>> {
    if ignored {
        match def.on_ignore {
            OnIgnore::Remove => Some(Seq::empty()),
            OnIgnore::Newline => Some(seq!['\n']),
            OnIgnore::Keep => None,
        }
    } else {
        Some(def.typst@)
    }
}

/// `r` is `def`, registered under `id`, resolved against `ignore_list`.
pub open spec fn resolves_to(r: ResolvedModifier, id: Seq<char>, def: ModifierDef, ignore_list: Seq<Seq<char>>) -> bool {
    &&& r.id@ == id
    &&& r.marker@ == def.marker@
    &&& opt_view(r.effective_typst) == effective_output(def, ignore_list.contains(id))
    &&& r.modifier_type == def.modifier_type
}

/// Whether `id` is one of `list`.
fn list_contains(list: &[String], id: &String) -> (b: bool)
    ensures
        b == string_views(list@).contains(id@),
{
    let mut i: usize = 0;
    while i < list.len()
        invariant
            i <= list.len(),
            forall|j: int| 0 <= j < i ==> list@[j]@ != id@,
        decreases list.len() - i,
    {
        if list[i] == *id {
            assert(string_views(list@)[i as int] == id@);
            return true;
        }
        i = i + 1;
    }
    assert forall|j: int| 0 <= j < string_views(list@).len() implies string_views(list@)[j] != id@ by {
        assert(string_views(list@)[j] == list@[j]@);
    }
    false
}

/// Resolves every modifier of the registry against a template's ignore list:
/// a modifier that is not ignored yields its normal Typst output; an ignored one
/// yields the empty string (`remove`), a newline (`newline`) or `None`, keeping the
/// marker (`keep`). The result follows the registry's entry order.
pub fn resolve_modifiers(registry: &ModifierRegistry, ignore_list: &[String]) -> (res: Vec<ResolvedModifier>)
    ensures
        res@.len() == registry.entry_seq().len(),
        forall|i: int| 0 <= i < res@.len() ==> #[trigger] resolves_to(
            res@[i],
            registry.key_at(i),
            registry.entry_seq()[i].1,
            string_views(ignore_list@),
        ),
{
    let mut res: Vec<ResolvedModifier> = Vec::new();
    let n = registry.len();
    let mut i: usize = 0;
    while i < n
        invariant
            n == registry.entry_seq().len(),
            i <= n,
            res@.len() == i,
            forall|j: int| 0 <= j < i ==> #[trigger] resolves_to(
                res@[j],
                registry.key_at(j),
                registry.entry_seq()[j].1,
                string_views(ignore_list@),
            ),
        decreases n - i,
    {
        let (id, def) = registry.entry(i);
        let effective = if list_contains(ignore_list, id) {
            match def.on_ignore {
                OnIgnore::Remove => Some(String::new()),
                OnIgnore::Newline => {
                    let mut nl = String::new();
                    push_char(&mut nl, '\n');
                    assert(nl@ =~= seq!['\n']);
                    Some(nl)
                },
                OnIgnore::Keep => None,
            }
        } else {
            Some(def.typst.clone())
        };
        res.push(ResolvedModifier {
            id: id.clone(),
            marker: def.marker.clone(),
            effective_typst: effective,
            modifier_type: def.modifier_type,
        });
        i = i + 1;
    }
    res
}

/// Resolved modifiers, partitioned for the converter.
#[derive(Debug)]
pub struct ConversionContext {
    /// Block modifiers: marker to effective output.
    pub block_modifiers: StrMap<Option<String>>,
    /// Inline modifiers, in order; applied as text substitutions after conversion.
    pub inline_modifiers: Vec<ResolvedModifier>,
}

/// The block-modifier map built from `ms`: each block modifier, in order, stored
/// under its marker (a later one replacing an earlier one with the same marker).
pub open spec fn block_map(ms: Seq<ResolvedModifier>) -> Map<Seq<char>, Option<String>>
    decreases ms.len(),
{
    if ms.len() == 0 {
        Map::empty()
    } else {
        let m = block_map(ms.drop_last());
        let last = ms.last();
        if last.modifier_type == ModifierType::Block {
            m.insert(last.marker@, last.effective_typst)
        } else {
            m
        }
    }
}

/// The inline modifiers of `ms`, in order.
pub open spec fn inline_only(ms: Seq<ResolvedModifier>) -> Seq<ResolvedModifier>
    decreases ms.len(),
{
    if ms.len() == 0 {
        Seq::empty()
    } else {
        let rest = inline_only(ms.drop_last());
        if ms.last().modifier_type == ModifierType::Inline {
            rest.push(ms.last())
        } else {
            rest
        }
    }
}

impl ConversionContext {
    /// A context with no modifiers.
    pub fn empty() -> (c: Self)
        ensures
            c.block_modifiers@ == Map::<Seq<char>, Option<String>>::empty(),
            c.inline_modifiers@.len() == 0,
    {
        ConversionContext { block_modifiers: StrMap::new(), inline_modifiers: Vec::new() }
    }

    /// Partitions resolved modifiers: block modifiers go into a map keyed by marker,
    /// inline modifiers into a list, each in the given order.
    pub fn from_resolved(modifiers: &[ResolvedModifier]) -> (c: Self)
        ensures
            c.block_modifiers@ == block_map(modifiers@),
            c.inline_modifiers@ == inline_only(modifiers@),
    {
        let mut block_modifiers: StrMap<Option<String>> = StrMap::new();
        let mut inline_modifiers: Vec<ResolvedModifier> = Vec::new();
        let mut i: usize = 0;
        assert(modifiers@.take(0) =~= Seq::<ResolvedModifier>::empty());
        while i < modifiers.len()
            invariant
                i <= modifiers.len(),
                block_modifiers@ == block_map(modifiers@.take(i as int)),
                inline_modifiers@ == inline_only(modifiers@.take(i as int)),
            decreases modifiers.len() - i,
        {
            let m = &modifiers[i];
            assert(modifiers@.take(i + 1).drop_last() =~= modifiers@.take(i as int));
            assert(modifiers@.take(i + 1).last() == *m);
            match m.modifier_type {
                ModifierType::Block => {
                    let eff = match &m.effective_typst {
                        Some(s) => Some(s.clone()),
                        None => None,
                    };
                    assert(eff == m.effective_typst);
                    block_modifiers.insert(m.marker.clone(), eff);
                },
                ModifierType::Inline => {
                    inline_modifiers.push(m.duplicate());
                },
            }
            i = i + 1;
        }
        assert(modifiers@.take(modifiers.len() as int) =~= modifiers@);
        ConversionContext { block_modifiers, inline_modifiers }
    }
}

} // verus!
