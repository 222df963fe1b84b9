//! The plan context: for each alias of a query, the label that was resolved
//! for it and the predicates and projections that were pushed down to it.
use vstd::prelude::*;
use vstd::string::StringExecFns;
use crate::assoc::{entries_view, find, has_key, lookup, put, unique_keys, lemma_put};
use crate::errors::PlanCtxError;
use crate::expr::{clone_exprs, clone_properties, ExprV, PlanExpr, Property, PropertyV};
use crate::logical_plan::{clone_items, ProjectionItem, ProjectionItemV};
use crate::views::{clone_opt_string, opt_view, seq_view, Text};

verus! {

/// What is known of one alias.
#[derive(Debug, Clone, PartialEq)]
pub struct TableCtx {
    pub label: Option<String>,
    pub properties: Vec<Property>,
    filter_predicates: Vec<PlanExpr>,
    projection_items: Vec<ProjectionItem>,
    pub is_rel: bool,
    pub use_edge_list: bool,
    pub explicit_alias: bool,
}

pub ghost struct TableCtxV {
    /// The resolved node or relationship type.
    pub label: Option<Text>,
    /// The inline `{k: v}` literals of the pattern.
    pub properties: Seq<PropertyV>,
    /// The predicates pushed down to the alias.
    pub filter_predicates: Seq<ExprV>,
    /// The projections pushed down to the alias.
    pub projection_items: Seq<ProjectionItemV>,
    /// The alias names an edge, not a node.
    pub is_rel: bool,
    /// The query reads edge properties, so the wide edge table is scanned.
    pub use_edge_list: bool,
    /// The user wrote the alias.
    pub explicit_alias: bool,
}

impl View for TableCtx {
    type V = TableCtxV;

    closed spec fn view(&self) -> TableCtxV {
        TableCtxV {
            label: opt_view(self.label),
            properties: seq_view(self.properties@),
            filter_predicates: seq_view(self.filter_predicates@),
            projection_items: seq_view(self.projection_items@),
            is_rel: self.is_rel,
            use_edge_list: self.use_edge_list,
            explicit_alias: self.explicit_alias,
        }
    }
}

/// `s` with `x` at the end unless `s` holds it already.
pub open spec fn push_new<V>(s: Seq<V>, x: V) -> Seq<V> {
    if s.contains(x) {
        s
    } else {
        s.push(x)
    }
}

impl TableCtx {
    /// A context with no pushed-down predicates or projections.
    pub fn build(
        label: Option<String>,
        properties: Vec<Property>,
        is_rel: bool,
        explicit_alias: bool,
    ) -> (ctx: TableCtx)
        ensures
            ctx@ == (TableCtxV {
                label: opt_view(label),
                properties: seq_view(properties@),
                filter_predicates: Seq::empty(),
                projection_items: Seq::empty(),
                is_rel,
                use_edge_list: false,
                explicit_alias,
            }),
    {
        let ctx = TableCtx {
            label,
            properties,
            filter_predicates: Vec::new(),
            projection_items: Vec::new(),
            is_rel,
            use_edge_list: false,
            explicit_alias,
        };
        assert(seq_view(ctx.filter_predicates@) =~= Seq::empty());
        assert(seq_view(ctx.projection_items@) =~= Seq::empty());
        ctx
    }

    pub fn deep_clone(&self) -> (r: TableCtx)
        ensures
            r@ == self@,
    {
        TableCtx {
            label: clone_opt_string(&self.label),
            properties: clone_properties(&self.properties),
            filter_predicates: clone_exprs(&self.filter_predicates),
            projection_items: clone_items(&self.projection_items),
            is_rel: self.is_rel,
            use_edge_list: self.use_edge_list,
            explicit_alias: self.explicit_alias,
        }
    }

    pub fn get_projections(&self) -> (r: &Vec<ProjectionItem>)
        ensures
            seq_view(r@) == self@.projection_items,
    {
        &self.projection_items
    }

    pub fn set_projections(&mut self, proj_items: Vec<ProjectionItem>)
        ensures
            final(self)@ == (TableCtxV { projection_items: seq_view(proj_items@), ..old(self)@ }),
    {
        self.projection_items = proj_items;
    }

    /// Adds the item unless an equal one is present.
    pub fn insert_projection(&mut self, proj_item: ProjectionItem)
        ensures
            final(self)@ == (TableCtxV {
                projection_items: push_new(old(self)@.projection_items, proj_item@),
                ..old(self)@
            }),
    {
        let mut i: usize = 0;
        let mut found = false;
        while i < self.projection_items.len()
            invariant
                i <= self.projection_items.len(),
                *self == *old(self),
                !found,
                forall|j: int| 0 <= j < i ==> seq_view(self.projection_items@)[j] != proj_item@,
            decreases self.projection_items.len() - i,
        {
            if self.projection_items[i].same(&proj_item) {
                assert(seq_view(self.projection_items@)[i as int] == proj_item@);
                return ;
            }
            i += 1;
        }
        self.projection_items.push(proj_item);
        assert(seq_view(self.projection_items@) =~= seq_view(old(self).projection_items@).push(
            proj_item@,
        ));
    }

    /// Adds the item at the end, as it is.
    pub fn push_projection(&mut self, proj_item: ProjectionItem)
        ensures
            final(self)@ == (TableCtxV {
                projection_items: old(self)@.projection_items.push(proj_item@),
                ..old(self)@
            }),
    {
        self.projection_items.push(proj_item);
        assert(seq_view(self.projection_items@) =~= seq_view(old(self).projection_items@).push(
            proj_item@,
        ));
    }

    /// Adds the items at the end, as they are.
    pub fn append_projection(&mut self, proj_items: &mut Vec<ProjectionItem>)
        ensures
            final(self)@ == (TableCtxV {
                projection_items: old(self)@.projection_items + seq_view(old(proj_items)@),
                ..old(self)@
            }),
            final(proj_items)@.len() == 0,
    {
        self.projection_items.append(proj_items);
        assert(seq_view(self.projection_items@) =~= seq_view(old(self).projection_items@)
            + seq_view(old(proj_items)@));
    }

    pub fn get_filters(&self) -> (r: &Vec<PlanExpr>)
        ensures
            seq_view(r@) == self@.filter_predicates,
    {
        &self.filter_predicates
    }

    /// Adds the predicate unless an equal one is present.
    pub fn insert_filter(&mut self, filter_pred: PlanExpr)
        ensures
            final(self)@ == (TableCtxV {
                filter_predicates: push_new(old(self)@.filter_predicates, filter_pred@),
                ..old(self)@
            }),
    {
        let mut i: usize = 0;
        while i < self.filter_predicates.len()
            invariant
                i <= self.filter_predicates.len(),
                *self == *old(self),
                forall|j: int| 0 <= j < i ==> seq_view(self.filter_predicates@)[j] != filter_pred@,
            decreases self.filter_predicates.len() - i,
        {
            if self.filter_predicates[i].same(&filter_pred) {
                assert(seq_view(self.filter_predicates@)[i as int] == filter_pred@);
                return ;
            }
            i += 1;
        }
        self.filter_predicates.push(filter_pred);
        assert(seq_view(self.filter_predicates@) =~= seq_view(old(self).filter_predicates@).push(
            filter_pred@,
        ));
    }

    /// Adds the predicates at the end, as they are.
    pub fn append_filters(&mut self, filter_preds: &mut Vec<PlanExpr>)
        ensures
            final(self)@ == (TableCtxV {
                filter_predicates: old(self)@.filter_predicates + seq_view(old(filter_preds)@),
                ..old(self)@
            }),
            final(filter_preds)@.len() == 0,
    {
        self.filter_predicates.append(filter_preds);
        assert(seq_view(self.filter_predicates@) =~= seq_view(old(self).filter_predicates@)
            + seq_view(old(filter_preds)@));
    }

    pub fn set_label(&mut self, label: Option<String>)
        ensures
            final(self)@ == (TableCtxV { label: opt_view(label), ..old(self)@ }),
    {
        self.label = label;
    }

    pub fn get_label_opt(&self) -> (r: Option<String>)
        ensures
            opt_view(r) == self@.label,
    {
        clone_opt_string(&self.label)
    }

    pub fn is_relation(&self) -> (r: bool)
        ensures
            r == self@.is_rel,
    {
        self.is_rel
    }

    pub fn set_use_edge_list(&mut self, use_edge_list: bool)
        ensures
            final(self)@ == (TableCtxV { use_edge_list, ..old(self)@ }),
    {
        self.use_edge_list = use_edge_list;
    }

    /// `true` when the relationship must be read from its edge list:
    /// the flag is set, or the alias has filters or projections of its own.
    pub fn should_use_edge_list(&self) -> (r: bool)
        ensures
            r == self@.needs_edge_list(),
    {
        self.use_edge_list || self.filter_predicates.len() > 0 || self.projection_items.len() > 0
    }

    pub fn is_explicit_alias(&self) -> (r: bool)
        ensures
            r == self@.explicit_alias,
    {
        self.explicit_alias
    }

    /// Hands out the inline properties and leaves none behind.
    pub fn get_and_clear_properties(&mut self) -> (props: Vec<Property>)
        ensures
            seq_view(props@) == old(self)@.properties,
            final(self)@ == (TableCtxV { properties: Seq::empty(), ..old(self)@ }),
    {
        let mut props: Vec<Property> = Vec::new();
        std::mem::swap(&mut props, &mut self.properties);
        assert(seq_view(self.properties@) =~= Seq::empty());
        props
    }

    pub fn append_properties(&mut self, props: Vec<Property>)
        ensures
            final(self)@ == (TableCtxV {
                properties: old(self)@.properties + seq_view(props@),
                ..old(self)@
            }),
    {
        let mut props = props;
        let ghost added = props@;
        self.properties.append(&mut props);
        assert(seq_view(self.properties@) =~= seq_view(old(self).properties@) + seq_view(added));
    }
}

impl TableCtxV {
    pub open spec fn needs_edge_list(self) -> bool {
        self.use_edge_list || self.filter_predicates.len() > 0 || self.projection_items.len() > 0
    }
}

/// The side-table of a query: one context per alias, in the order in which
/// the aliases came in. No alias occurs twice.
#[derive(Debug, Clone, PartialEq)]
pub struct PlanCtx {
    alias_table_ctx_map: Vec<(String, TableCtx)>,
    last_node: String,
}

pub ghost struct PlanCtxV {
    pub entries: Seq<(Text, TableCtxV)>,
    /// The anchor alias once chosen, empty before.
    pub last_node: Text,
}

impl PlanCtxV {
    /// The context that knows no alias.
    pub open spec fn empty() -> PlanCtxV {
        PlanCtxV { entries: Seq::empty(), last_node: Seq::empty() }
    }

    /// The context of the alias, if the alias is known.
    pub open spec fn get(self, alias: Text) -> Option<TableCtxV> {
        lookup(self.entries, alias)
    }

    pub open spec fn contains(self, alias: Text) -> bool {
        has_key(self.entries, alias)
    }

    /// The context with `ctx` under `alias`.
    pub open spec fn with(self, alias: Text, ctx: TableCtxV) -> PlanCtxV {
        PlanCtxV { entries: put(self.entries, alias, ctx), ..self }
    }

    /// No alias occurs twice.
    pub open spec fn wf(self) -> bool {
        unique_keys(self.entries)
    }
}

impl View for PlanCtx {
    type V = PlanCtxV;

    closed spec fn view(&self) -> PlanCtxV {
        PlanCtxV { entries: entries_view(self.alias_table_ctx_map@), last_node: self.last_node@ }
    }
}

fn entry_value_mut(entries: &mut Vec<(String, TableCtx)>, i: usize) -> (r: &mut TableCtx)
    requires
        i < old(entries).len(),
    ensures
        *r == old(entries)@[i as int].1,
        final(entries)@ == old(entries)@.update(
            i as int,
            (old(entries)@[i as int].0, *final(r)),
        ),
{
    &mut entries[i].1
}

impl PlanCtx {
    /// The context that knows no alias.
    pub fn default() -> (ctx: PlanCtx)
        ensures
            ctx@ == PlanCtxV::empty(),
            ctx@.wf(),
    {
        let ctx = PlanCtx { alias_table_ctx_map: Vec::new(), last_node: String::new() };
        assert(ctx@.entries =~= Seq::empty());
        ctx
    }

    /// Records the context of an alias, in place of an earlier one.
    pub fn insert_table_ctx(&mut self, alias: String, table_ctx: TableCtx)
        ensures
            final(self)@ == old(self)@.with(alias@, table_ctx@),
            old(self)@.wf() ==> final(self)@.wf(),
    {
        proof {
            lemma_put(self@.entries, alias@, table_ctx@);
        }
        match find(&self.alias_table_ctx_map, &alias) {
            Some(i) => {
                self.alias_table_ctx_map.set(i, (alias, table_ctx));
                assert(entries_view(self.alias_table_ctx_map@) =~= put(
                    old(self)@.entries,
                    alias@,
                    table_ctx@,
                ));
            },
            None => {
                self.alias_table_ctx_map.push((alias, table_ctx));
                assert(entries_view(self.alias_table_ctx_map@) =~= put(
                    old(self)@.entries,
                    alias@,
                    table_ctx@,
                ));
            },
        }
    }

    /// Same as `insert_table_ctx`.
    pub fn set_table_ctx(&mut self, alias: String, table_ctx: TableCtx)
        ensures
            final(self)@ == old(self)@.with(alias@, table_ctx@),
            old(self)@.wf() ==> final(self)@.wf(),
    {
        self.insert_table_ctx(alias, table_ctx)
    }

    pub fn get_table_ctx_opt(&self, alias: &str) -> (r: Option<&TableCtx>)
        ensures
            opt_view(r) == self@.get(alias@),
    {
        let key = String::from_str(alias);
        match find(&self.alias_table_ctx_map, &key) {
            Some(i) => Some(&self.alias_table_ctx_map[i].1),
            None => None,
        }
    }

    pub fn get_node_table_ctx_opt(&self, node_alias: &str) -> (r: Option<&TableCtx>)
        ensures
            opt_view(r) == self@.get(node_alias@),
    {
        self.get_table_ctx_opt(node_alias)
    }

    pub fn get_rel_table_ctx_opt(&self, rel_alias: &str) -> (r: Option<&TableCtx>)
        ensures
            opt_view(r) == self@.get(rel_alias@),
    {
        self.get_table_ctx_opt(rel_alias)
    }

    pub fn get_table_ctx(&self, alias: &str) -> (r: Result<&TableCtx, PlanCtxError>)
        ensures
            match r {
                Ok(t) => self@.get(alias@) == Some(t@),
                Err(e) => self@.get(alias@) is None && e is MissingTableCtx
                    && e->MissingTableCtx_alias@ == alias@,
            },
    {
        match self.get_table_ctx_opt(alias) {
            Some(t) => Ok(t),
            None => Err(PlanCtxError::MissingTableCtx { alias: String::from_str(alias) }),
        }
    }

    pub fn get_node_table_ctx(&self, node_alias: &str) -> (r: Result<&TableCtx, PlanCtxError>)
        ensures
            match r {
                Ok(t) => self@.get(node_alias@) == Some(t@),
                Err(e) => self@.get(node_alias@) is None && e is MissingNodeTableCtx
                    && e->MissingNodeTableCtx_alias@ == node_alias@,
            },
    {
        match self.get_table_ctx_opt(node_alias) {
            Some(t) => Ok(t),
            None => Err(PlanCtxError::MissingNodeTableCtx { alias: String::from_str(node_alias) }),
        }
    }

    pub fn get_rel_table_ctx(&self, rel_alias: &str) -> (r: Result<&TableCtx, PlanCtxError>)
        ensures
            match r {
                Ok(t) => self@.get(rel_alias@) == Some(t@),
                Err(e) => self@.get(rel_alias@) is None && e is MissingRelTableCtx
                    && e->MissingRelTableCtx_alias@ == rel_alias@,
            },
    {
        match self.get_table_ctx_opt(rel_alias) {
            Some(t) => Ok(t),
            None => Err(PlanCtxError::MissingRelTableCtx { alias: String::from_str(rel_alias) }),
        }
    }

    /// The context of the alias for changing it in place. What the caller
    /// leaves in it is what the plan context then holds under the alias.
    pub fn get_mut_table_ctx_opt(&mut self, alias: &str) -> (r: Option<&mut TableCtx>)
        ensures
            match r {
                Some(t) => old(self)@.get(alias@) == Some(t@) && final(self)@ == old(self)@.with(
                    alias@,
                    final(t)@,
                ),
                None => old(self)@.get(alias@) is None && final(self)@ == old(self)@,
            },
    {
        let key = String::from_str(alias);
        match find(&self.alias_table_ctx_map, &key) {
            Some(i) => {
                let ghost before = self.alias_table_ctx_map@;
                let r = entry_value_mut(&mut self.alias_table_ctx_map, i);
                proof {
                    let after = before.update(i as int, (before[i as int].0, *final(r)));
                    assert(entries_view(after) =~= put(
                        entries_view(before),
                        alias@,
                        (*final(r))@,
                    ));
                }
                Some(r)
            },
            None => None,
        }
    }

    /// Same as `get_mut_table_ctx_opt`, for the alias of a node.
    pub fn get_mut_node_table_ctx_opt(&mut self, node_alias: &str) -> (r: Option<&mut TableCtx>)
        ensures
            match r {
                Some(t) => old(self)@.get(node_alias@) == Some(t@) && final(self)@ == old(
                    self,
                )@.with(node_alias@, final(t)@),
                None => old(self)@.get(node_alias@) is None && final(self)@ == old(self)@,
            },
    {
        self.get_mut_table_ctx_opt(node_alias)
    }

    /// Same as `get_mut_table_ctx_opt`, for the alias of a relationship.
    pub fn get_mut_rel_table_ctx_opt(&mut self, rel_alias: &str) -> (r: Option<&mut TableCtx>)
        ensures
            match r {
                Some(t) => old(self)@.get(rel_alias@) == Some(t@) && final(self)@ == old(
                    self,
                )@.with(rel_alias@, final(t)@),
                None => old(self)@.get(rel_alias@) is None && final(self)@ == old(self)@,
            },
    {
        self.get_mut_table_ctx_opt(rel_alias)
    }

    /// A copy of the context of the alias; the plan context stays as it is.
    pub fn get_mut_table_ctx(&mut self, alias: &str) -> (r: Result<TableCtx, PlanCtxError>)
        ensures
            final(self)@ == old(self)@,
            match r {
                Ok(t) => old(self)@.get(alias@) == Some(t@),
                Err(e) => old(self)@.get(alias@) is None && e is MissingTableCtx
                    && e->MissingTableCtx_alias@ == alias@,
            },
    {
        match self.get_table_ctx_opt(alias) {
            Some(t) => Ok(t.deep_clone()),
            None => Err(PlanCtxError::MissingTableCtx { alias: String::from_str(alias) }),
        }
    }

    /// A copy of the context of a node alias; the plan context stays as it
    /// is.
    pub fn get_mut_node_table_ctx(&mut self, node_alias: &str) -> (r: Result<
        TableCtx,
        PlanCtxError,
    >)
        ensures
            final(self)@ == old(self)@,
            match r {
                Ok(t) => old(self)@.get(node_alias@) == Some(t@),
                Err(e) => old(self)@.get(node_alias@) is None && e is MissingNodeTableCtx
                    && e->MissingNodeTableCtx_alias@ == node_alias@,
            },
    {
        match self.get_table_ctx_opt(node_alias) {
            Some(t) => Ok(t.deep_clone()),
            None => Err(PlanCtxError::MissingNodeTableCtx { alias: String::from_str(node_alias) }),
        }
    }

    /// A copy of the context of a relationship alias; the plan context
    /// stays as it is.
    pub fn get_mut_rel_table_ctx(&mut self, rel_alias: &str) -> (r: Result<TableCtx, PlanCtxError>)
        ensures
            final(self)@ == old(self)@,
            match r {
                Ok(t) => old(self)@.get(rel_alias@) == Some(t@),
                Err(e) => old(self)@.get(rel_alias@) is None && e is MissingRelTableCtx
                    && e->MissingRelTableCtx_alias@ == rel_alias@,
            },
    {
        match self.get_table_ctx_opt(rel_alias) {
            Some(t) => Ok(t.deep_clone()),
            None => Err(PlanCtxError::MissingRelTableCtx { alias: String::from_str(rel_alias) }),
        }
    }

    /// The number of aliases.
    pub fn len(&self) -> (n: usize)
        ensures
            n == self@.entries.len(),
    {
        self.alias_table_ctx_map.len()
    }

    /// The context at a position, for changing it in place.
    pub fn get_mut_table_ctx_at(&mut self, i: usize) -> (r: &mut TableCtx)
        requires
            i < old(self)@.entries.len(),
        ensures
            r@ == old(self)@.entries[i as int].1,
            final(self)@ == (PlanCtxV {
                entries: old(self)@.entries.update(
                    i as int,
                    (old(self)@.entries[i as int].0, final(r)@),
                ),
                ..old(self)@
            }),
    {
        let ghost before = self.alias_table_ctx_map@;
        let r = entry_value_mut(&mut self.alias_table_ctx_map, i);
        proof {
            let after = before.update(i as int, (before[i as int].0, *final(r)));
            assert(entries_view(after) =~= entries_view(before).update(
                i as int,
                (entries_view(before)[i as int].0, (*final(r))@),
            ));
        }
        r
    }

    pub fn get_last_node(&self) -> (r: &String)
        ensures
            r@ == self@.last_node,
    {
        &self.last_node
    }

    pub fn set_last_node(&mut self, alias: String)
        ensures
            final(self)@ == (PlanCtxV { last_node: alias@, ..old(self)@ }),
    {
        self.last_node = alias;
    }

    /// The aliases with their contexts, in the order in which they came in.
    pub fn get_alias_table_ctx_map(&self) -> (r: &Vec<(String, TableCtx)>)
        ensures
            entries_view(r@) == self@.entries,
    {
        &self.alias_table_ctx_map
    }
}

} // verus!
