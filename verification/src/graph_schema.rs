//! A read-only snapshot of the graph catalog: node and relationship schemas
//! by label.
use vstd::prelude::*;
use vstd::string::StringExecFns;
use crate::errors::GraphSchemaError;
use crate::views::{clone_strings, seq_view, opt_view, Text};
use crate::assoc::{entries_view, find, lookup, put, unique_keys, lemma_put};

verus! {

#[derive(Debug, Clone, PartialEq)]
pub struct NodeIdSchema {
    pub column: String,
    pub dtype: String,
}

#[derive(Debug, Clone, PartialEq)]
pub struct NodeSchema {
    pub table_name: String,
    pub column_names: Vec<String>,
    pub primary_keys: String,
    pub node_id: NodeIdSchema,
}

#[derive(Debug, Clone, PartialEq)]
pub struct RelationshipSchema {
    pub table_name: String,
    pub column_names: Vec<String>,
    pub from_node: String,
    pub to_node: String,
    pub from_node_id_dtype: String,
    pub to_node_id_dtype: String,
}

#[derive(Debug, Clone, PartialEq)]
pub enum GraphSchemaElement {
    Node(NodeSchema),
    Rel(RelationshipSchema),
}

#[derive(Debug, Clone, PartialEq)]
pub struct EntityProperties {
    pub primary_keys: String,
    pub node_id: NodeIdSchema,
}

pub ghost struct NodeSchemaV {
    pub table_name: Text,
    pub column_names: Seq<Text>,
    pub primary_keys: Text,
    pub id_column: Text,
    pub id_dtype: Text,
}

pub ghost struct RelSchemaV {
    pub table_name: Text,
    pub column_names: Seq<Text>,
    pub from_node: Text,
    pub to_node: Text,
    pub from_node_id_dtype: Text,
    pub to_node_id_dtype: Text,
}

impl View for NodeSchema {
    type V = NodeSchemaV;

    open spec fn view(&self) -> NodeSchemaV {
        NodeSchemaV {
            table_name: self.table_name@,
            column_names: seq_view(self.column_names@),
            primary_keys: self.primary_keys@,
            id_column: self.node_id.column@,
            id_dtype: self.node_id.dtype@,
        }
    }
}

impl View for RelationshipSchema {
    type V = RelSchemaV;

    open spec fn view(&self) -> RelSchemaV {
        RelSchemaV {
            table_name: self.table_name@,
            column_names: seq_view(self.column_names@),
            from_node: self.from_node@,
            to_node: self.to_node@,
            from_node_id_dtype: self.from_node_id_dtype@,
            to_node_id_dtype: self.to_node_id_dtype@,
        }
    }
}

impl NodeSchema {
    pub fn deep_clone(&self) -> (r: NodeSchema)
        ensures
            r@ == self@,
    {
        NodeSchema {
            table_name: self.table_name.clone(),
            column_names: clone_strings(&self.column_names),
            primary_keys: self.primary_keys.clone(),
            node_id: NodeIdSchema {
                column: self.node_id.column.clone(),
                dtype: self.node_id.dtype.clone(),
            },
        }
    }
}

impl RelationshipSchema {
    pub fn deep_clone(&self) -> (r: RelationshipSchema)
        ensures
            r@ == self@,
    {
        RelationshipSchema {
            table_name: self.table_name.clone(),
            column_names: clone_strings(&self.column_names),
            from_node: self.from_node.clone(),
            to_node: self.to_node.clone(),
            from_node_id_dtype: self.from_node_id_dtype.clone(),
            to_node_id_dtype: self.to_node_id_dtype.clone(),
        }
    }
}

/// The node and relationship schemas of one version of the catalog. No
/// label occurs twice among the nodes, nor among the relationships.
#[derive(Debug, Clone, PartialEq)]
pub struct GraphSchema {
    version: u32,
    nodes: Vec<(String, NodeSchema)>,
    relationships: Vec<(String, RelationshipSchema)>,
}

pub ghost enum GraphSchemaElementV {
    Node(NodeSchemaV),
    Rel(RelSchemaV),
}

impl View for GraphSchemaElement {
    type V = GraphSchemaElementV;

    open spec fn view(&self) -> GraphSchemaElementV {
        match self {
            GraphSchemaElement::Node(n) => GraphSchemaElementV::Node(n@),
            GraphSchemaElement::Rel(r) => GraphSchemaElementV::Rel(r@),
        }
    }
}

pub ghost struct GraphSchemaV {
    pub version: u32,
    pub nodes: Seq<(Text, NodeSchemaV)>,
    pub relationships: Seq<(Text, RelSchemaV)>,
}

impl GraphSchemaV {
    /// The schema of the node label, if the catalog holds it.
    pub open spec fn node(self, label: Text) -> Option<NodeSchemaV> {
        lookup(self.nodes, label)
    }

    /// The schema of the relationship label, if the catalog holds it.
    pub open spec fn relationship(self, label: Text) -> Option<RelSchemaV> {
        lookup(self.relationships, label)
    }

    /// No label occurs twice.
    pub open spec fn wf(self) -> bool {
        unique_keys(self.nodes) && unique_keys(self.relationships)
    }

    /// `true` for an element that can join the catalog: a node always, a
    /// relationship where the catalog holds the labels of both its ends.
    pub open spec fn accepts(self, element: GraphSchemaElementV) -> bool {
        match element {
            GraphSchemaElementV::Node(_) => true,
            GraphSchemaElementV::Rel(r) => self.node(r.from_node) is Some && self.node(
                r.to_node,
            ) is Some,
        }
    }

    /// The next version of the catalog, with the element under the name
    /// of its table.
    pub open spec fn with_element(self, element: GraphSchemaElementV) -> GraphSchemaV
        recommends
            self.version < u32::MAX,
    {
        match element {
            GraphSchemaElementV::Node(n) => GraphSchemaV {
                version: (self.version + 1) as u32,
                nodes: put(self.nodes, n.table_name, n),
                ..self
            },
            GraphSchemaElementV::Rel(r) => GraphSchemaV {
                version: (self.version + 1) as u32,
                relationships: put(self.relationships, r.table_name, r),
                ..self
            },
        }
    }
}

impl View for GraphSchema {
    type V = GraphSchemaV;

    closed spec fn view(&self) -> GraphSchemaV {
        GraphSchemaV {
            version: self.version,
            nodes: entries_view(self.nodes@),
            relationships: entries_view(self.relationships@),
        }
    }
}

/// The entries that putting each entry of `added` in turn into `base` gives.
pub open spec fn put_all<V>(base: Seq<(Text, V)>, added: Seq<(Text, V)>) -> Seq<(Text, V)>
    decreases added.len(),
{
    if added.len() == 0 {
        base
    } else {
        put(put_all(base, added.drop_last()), added.last().0, added.last().1)
    }
}

pub proof fn lemma_put_all_unique<V>(base: Seq<(Text, V)>, added: Seq<(Text, V)>)
    requires
        unique_keys(base),
    ensures
        unique_keys(put_all(base, added)),
    decreases added.len(),
{
    if added.len() > 0 {
        lemma_put_all_unique(base, added.drop_last());
        lemma_put(put_all(base, added.drop_last()), added.last().0, added.last().1);
    }
}

fn put_node(nodes: &mut Vec<(String, NodeSchema)>, label: String, schema: NodeSchema)
    ensures
        entries_view(final(nodes)@) == put(entries_view(old(nodes)@), label@, schema@),
{
    match find(nodes, &label) {
        Some(i) => {
            nodes.set(i, (label, schema));
            assert(entries_view(nodes@) =~= put(entries_view(old(nodes)@), label@, schema@));
        },
        None => {
            nodes.push((label, schema));
            assert(entries_view(nodes@) =~= put(entries_view(old(nodes)@), label@, schema@));
        },
    }
}

fn put_rel(rels: &mut Vec<(String, RelationshipSchema)>, label: String, schema: RelationshipSchema)
    ensures
        entries_view(final(rels)@) == put(entries_view(old(rels)@), label@, schema@),
{
    match find(rels, &label) {
        Some(i) => {
            rels.set(i, (label, schema));
            assert(entries_view(rels@) =~= put(entries_view(old(rels)@), label@, schema@));
        },
        None => {
            rels.push((label, schema));
            assert(entries_view(rels@) =~= put(entries_view(old(rels)@), label@, schema@));
        },
    }
}

impl GraphSchema {
    /// A catalog of the given version. Where a label occurs more than once
    /// in a list, its last schema stands, at the place of the first.
    pub fn build(
        version: u32,
        nodes: Vec<(String, NodeSchema)>,
        relationships: Vec<(String, RelationshipSchema)>,
    ) -> (schema: GraphSchema)
        ensures
            schema@.version == version,
            schema@.nodes == put_all(Seq::empty(), entries_view(nodes@)),
            schema@.relationships == put_all(Seq::empty(), entries_view(relationships@)),
            schema@.wf(),
    {
        let mut ns: Vec<(String, NodeSchema)> = Vec::new();
        let ghost all_nodes = entries_view(nodes@);
        assert(entries_view(ns@) =~= Seq::empty());
        let mut i: usize = 0;
        while i < nodes.len()
            invariant
                i <= nodes.len(),
                all_nodes == entries_view(nodes@),
                entries_view(ns@) == put_all(Seq::empty(), all_nodes.take(i as int)),
            decreases nodes.len() - i,
        {
            proof {
                assert(all_nodes.take(i + 1).drop_last() =~= all_nodes.take(i as int));
            }
            put_node(&mut ns, nodes[i].0.clone(), nodes[i].1.deep_clone());
            i += 1;
        }
        assert(all_nodes.take(nodes.len() as int) =~= all_nodes);
        let mut rs: Vec<(String, RelationshipSchema)> = Vec::new();
        let ghost all_rels = entries_view(relationships@);
        assert(entries_view(rs@) =~= Seq::empty());
        let mut k: usize = 0;
        while k < relationships.len()
            invariant
                k <= relationships.len(),
                all_rels == entries_view(relationships@),
                entries_view(rs@) == put_all(Seq::empty(), all_rels.take(k as int)),
            decreases relationships.len() - k,
        {
            proof {
                assert(all_rels.take(k + 1).drop_last() =~= all_rels.take(k as int));
            }
            put_rel(&mut rs, relationships[k].0.clone(), relationships[k].1.deep_clone());
            k += 1;
        }
        assert(all_rels.take(relationships.len() as int) =~= all_rels);
        proof {
            lemma_put_all_unique(Seq::<(Text, NodeSchemaV)>::empty(), all_nodes);
            lemma_put_all_unique(Seq::<(Text, RelSchemaV)>::empty(), all_rels);
        }
        GraphSchema { version, nodes: ns, relationships: rs }
    }

    /// An empty catalog of the given version.
    pub fn empty(version: u32) -> (schema: GraphSchema)
        ensures
            schema@.version == version,
            schema@.nodes.len() == 0,
            schema@.relationships.len() == 0,
            schema@.wf(),
    {
        GraphSchema { version, nodes: Vec::new(), relationships: Vec::new() }
    }

    /// Records the schema of a node label, in place of an earlier one.
    pub fn insert_node_schema(&mut self, node_label: String, node_schema: NodeSchema)
        ensures
            final(self)@ == (GraphSchemaV {
                nodes: put(old(self)@.nodes, node_label@, node_schema@),
                ..old(self)@
            }),
            old(self)@.wf() ==> final(self)@.wf(),
    {
        proof {
            lemma_put(self@.nodes, node_label@, node_schema@);
        }
        put_node(&mut self.nodes, node_label, node_schema);
    }

    /// Records the schema of a relationship label, in place of an earlier one.
    pub fn insert_rel_schema(&mut self, rel_label: String, rel_schema: RelationshipSchema)
        ensures
            final(self)@ == (GraphSchemaV {
                relationships: put(old(self)@.relationships, rel_label@, rel_schema@),
                ..old(self)@
            }),
            old(self)@.wf() ==> final(self)@.wf(),
    {
        proof {
            lemma_put(self@.relationships, rel_label@, rel_schema@);
        }
        put_rel(&mut self.relationships, rel_label, rel_schema);
    }

    /// `true` for an element that can join the catalog: a node always, a
    /// relationship where the catalog holds the labels of both its ends.
    pub fn accepts(&self, element: &GraphSchemaElement) -> (r: bool)
        ensures
            r == self@.accepts(element@),
    {
        match element {
            GraphSchemaElement::Node(_) => true,
            GraphSchemaElement::Rel(rel) => self.get_node_schema_opt(rel.from_node.as_str()).is_some()
                && self.get_node_schema_opt(rel.to_node.as_str()).is_some(),
        }
    }

    /// Puts the element under the name of its table, in place of an
    /// earlier one, and moves the version on by one.
    pub fn add_element(&mut self, element: GraphSchemaElement)
        requires
            old(self)@.version < u32::MAX,
        ensures
            final(self)@ == old(self)@.with_element(element@),
            old(self)@.wf() ==> final(self)@.wf(),
    {
        match element {
            GraphSchemaElement::Node(node_schema) => {
                let label = node_schema.table_name.clone();
                self.insert_node_schema(label, node_schema);
            },
            GraphSchemaElement::Rel(rel_schema) => {
                let label = rel_schema.table_name.clone();
                self.insert_rel_schema(label, rel_schema);
            },
        }
        self.increment_version();
    }

    pub fn get_version(&self) -> (v: u32)
        ensures
            v == self@.version,
    {
        self.version
    }

    pub fn increment_version(&mut self)
        requires
            old(self)@.version < u32::MAX,
        ensures
            final(self)@ == (GraphSchemaV { version: (old(self)@.version + 1) as u32, ..old(self)@ }),
    {
        self.version = self.version + 1;
    }

    pub fn get_node_schema(&self, node_label: &str) -> (r: Result<&NodeSchema, GraphSchemaError>)
        ensures
            match r {
                Ok(schema) => self@.node(node_label@) == Some(schema@),
                Err(e) => self@.node(node_label@) is None && e is NoNodeSchemaFound
                    && e->node_label@ == node_label@,
            },
    {
        let key = String::from_str(node_label);
        match find(&self.nodes, &key) {
            Some(i) => Ok(&self.nodes[i].1),
            None => Err(GraphSchemaError::NoNodeSchemaFound { node_label: key }),
        }
    }

    pub fn get_rel_schema(&self, rel_label: &str) -> (r: Result<
        &RelationshipSchema,
        GraphSchemaError,
    >)
        ensures
            match r {
                Ok(schema) => self@.relationship(rel_label@) == Some(schema@),
                Err(e) => self@.relationship(rel_label@) is None && e is NoRelationSchemaFound
                    && e->NoRelationSchemaFound_rel_label@ == rel_label@,
            },
    {
        let key = String::from_str(rel_label);
        match find(&self.relationships, &key) {
            Some(i) => Ok(&self.relationships[i].1),
            None => Err(GraphSchemaError::NoRelationSchemaFound { rel_label: key }),
        }
    }

    /// The relationship schemas with their labels, in catalog order.
    pub fn get_relationships_schemas(&self) -> (r: &Vec<(String, RelationshipSchema)>)
        ensures
            entries_view(r@) == self@.relationships,
    {
        &self.relationships
    }

    /// The node schemas with their labels, in catalog order.
    pub fn get_nodes_schemas(&self) -> (r: &Vec<(String, NodeSchema)>)
        ensures
            entries_view(r@) == self@.nodes,
    {
        &self.nodes
    }

    pub fn get_node_schema_opt(&self, node_label: &str) -> (r: Option<&NodeSchema>)
        ensures
            opt_view(r) == self@.node(node_label@),
    {
        let key = String::from_str(node_label);
        match find(&self.nodes, &key) {
            Some(i) => Some(&self.nodes[i].1),
            None => None,
        }
    }

    pub fn get_relationships_schema_opt(&self, rel_label: &str) -> (r: Option<&RelationshipSchema>)
        ensures
            opt_view(r) == self@.relationship(rel_label@),
    {
        let key = String::from_str(rel_label);
        match find(&self.relationships, &key) {
            Some(i) => Some(&self.relationships[i].1),
            None => None,
        }
    }
}

} // verus!
