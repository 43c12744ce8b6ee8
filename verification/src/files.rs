//! File nodes: the records, the store that keeps them by identifier, and its
//! listing, creation, saving and removal.

use vstd::prelude::*;
use std::collections::HashMap;
use vstd::std_specs::iter::IteratorSpec;
use crate::ident::{
    first_free, first_free_at, is_random_uuid, lemma_step_add, lemma_steps_meet_free, next_id,
    random_uuid, step,
};
use crate::status::{Status, StoreError};
use crate::text::{copy_opt_text, opt_text};

verus! {

broadcast use vstd::std_specs::hash::group_hash_axioms;

/// What a node is.
#[derive(Debug, Clone, Copy, PartialEq, Eq, Structural)]
pub enum NodeType {
    File,
    Folder,
}

/// A file or a folder. Its parent is named by identifier and nothing more is
/// asked of it: the parent need not exist.
#[derive(Debug)]
pub struct FileNode {
    pub id: u128,
    pub name: String,
    pub node_type: NodeType,
    pub size: Option<String>,
    pub modified: String,
    pub extension: Option<String>,
    pub content: Option<String>,
    pub parent: Option<u128>,
}

/// What a node holds, as mathematical values.
pub struct FileNodeView {
    pub id: u128,
    pub name: Seq<char>,
    pub node_type: NodeType,
    pub size: Option<Seq<char>>,
    pub modified: Seq<char>,
    pub extension: Option<Seq<char>>,
    pub content: Option<Seq<char>>,
    pub parent: Option<u128>,
}

impl View for FileNode {
    type V = FileNodeView;

    open spec fn view(&self) -> FileNodeView {
        FileNodeView {
            id: self.id,
            name: self.name@,
            node_type: self.node_type,
            size: opt_text(self.size),
            modified: self.modified@,
            extension: opt_text(self.extension),
            content: opt_text(self.content),
            parent: self.parent,
        }
    }
}

impl Clone for FileNode {
    fn clone(&self) -> (r: Self)
        ensures
            r@ == self@,
    {
        FileNode {
            id: self.id,
            name: self.name.clone(),
            node_type: self.node_type,
            size: copy_opt_text(&self.size),
            modified: self.modified.clone(),
            extension: copy_opt_text(&self.extension),
            content: copy_opt_text(&self.content),
            parent: self.parent,
        }
    }
}

/// What a caller sends to create a node.
#[derive(Debug, Clone)]
pub struct CreateNode {
    pub name: String,
    pub node_type: NodeType,
    pub parent: Option<u128>,
}

/// What a caller sends to save a file.
#[derive(Debug, Clone)]
pub struct UpdateFile {
    pub content: String,
}

/// The node that a request gives under an identifier: of size "0 B", with
/// empty content, no extension, and modified just now.
pub open spec fn fresh_node(req: CreateNode, id: u128) -> FileNodeView {
    FileNodeView {
        id,
        name: req.name@,
        node_type: req.node_type,
        size: Some("0 B"@),
        modified: "только что"@,
        extension: None,
        content: Some(Seq::<char>::empty()),
        parent: req.parent,
    }
}

/// A node after its content was saved: the new content, modified just now,
/// and all else as before.
pub open spec fn saved(m: FileNodeView, content: Seq<char>) -> FileNodeView {
    FileNodeView {
        id: m.id,
        name: m.name,
        node_type: m.node_type,
        size: m.size,
        modified: "только что"@,
        extension: m.extension,
        content: Some(content),
        parent: m.parent,
    }
}

/// The first sample node: a folder.
pub open spec fn sample_public(id: u128) -> FileNodeView {
    FileNodeView {
        id,
        name: "public"@,
        node_type: NodeType::Folder,
        size: None,
        modified: "2 часа назад"@,
        extension: None,
        content: None,
        parent: None,
    }
}

/// The second sample node: a folder.
pub open spec fn sample_src(id: u128) -> FileNodeView {
    FileNodeView {
        id,
        name: "src"@,
        node_type: NodeType::Folder,
        size: None,
        modified: "1 час назад"@,
        extension: None,
        content: None,
        parent: None,
    }
}

/// The third sample node: a file.
pub open spec fn sample_package(id: u128) -> FileNodeView {
    FileNodeView {
        id,
        name: "package.json"@,
        node_type: NodeType::File,
        size: Some("2.1 KB"@),
        modified: "3 дня назад"@,
        extension: Some("json"@),
        content: Some("{\n  \"name\": \"project\"\n}"@),
        parent: None,
    }
}

/// The three sample nodes under three identifiers.
pub open spec fn sample_tree(a: u128, b: u128, c: u128) -> Map<u128, FileNodeView> {
    map![a => sample_public(a), b => sample_src(b), c => sample_package(c)]
}

/// True when a list holds each node of the map once, and nothing else.
pub open spec fn lists(m: Map<u128, FileNodeView>, all: Seq<FileNodeView>) -> bool {
    &&& all.len() == m.dom().len()
    &&& forall|i: int|
        0 <= i < all.len() ==> m.contains_key(#[trigger] all[i].id) && m[all[i].id] == all[i]
    &&& forall|i: int, j: int|
        0 <= i < j < all.len() ==> #[trigger] all[i].id != #[trigger] all[j].id
    &&& forall|id: u128| #[trigger]
        m.contains_key(id) ==> exists|i: int| 0 <= i < all.len() && #[trigger] all[i] == m[id]
}

/// The first free identifier is not among the taken ones.
pub proof fn lemma_first_free_is_free(taken: Set<u128>, start: u128, id: u128)
    requires
        first_free(taken, start, id),
    ensures
        !taken.contains(id),
{
    let steps = choose|steps: nat| #[trigger]
        first_free_at(taken, start, steps) && id == step(start, steps);
}

/// The models of the nodes of a map.
pub open spec fn node_models(m: Map<u128, FileNode>) -> Map<u128, FileNodeView> {
    Map::new(|id: u128| m.contains_key(id), |id: u128| m[id]@)
}

/// True when every node of the map stands under its own identifier.
pub open spec fn keyed_by_id(m: Map<u128, FileNodeView>) -> bool {
    forall|id: u128| #[trigger] m.contains_key(id) ==> m[id].id == id
}

/// The nodes, each under its identifier.
pub struct FsStore {
    nodes: HashMap<u128, FileNode>,
}

impl View for FsStore {
    type V = Map<u128, FileNodeView>;

    closed spec fn view(&self) -> Map<u128, FileNodeView> {
        node_models(self.nodes@)
    }
}

impl Default for FsStore {
    /// A store without nodes.
    fn default() -> (store: Self)
        ensures
            store@ == Map::<u128, FileNodeView>::empty(),
    {
        Self::new()
    }
}

impl FsStore {
    #[verifier::type_invariant]
    spec fn inv(self) -> bool {
        keyed_by_id(self@)
    }

    /// Takes the nodes out and leaves the store empty.
    fn take_nodes(&mut self) -> (nodes: HashMap<u128, FileNode>)
        ensures
            node_models(nodes@) == old(self)@,
            keyed_by_id(old(self)@),
            final(self)@ == Map::<u128, FileNodeView>::empty(),
    {
        proof {
            use_type_invariant(&*self);
        }
        let mut nodes: HashMap<u128, FileNode> = HashMap::new();
        assert(node_models(nodes@) =~= Map::<u128, FileNodeView>::empty());
        std::mem::swap(&mut self.nodes, &mut nodes);
        nodes
    }

    /// A store without nodes.
    pub fn new() -> (store: Self)
        ensures
            store@ == Map::<u128, FileNodeView>::empty(),
    {
        let store = FsStore { nodes: HashMap::new() };
        assert(store@ =~= Map::<u128, FileNodeView>::empty());
        store
    }

    /// The number of nodes.
    pub fn len(&self) -> (n: usize)
        ensures
            n == self@.dom().len(),
            self@.dom().finite(),
            keyed_by_id(self@),
    {
        proof {
            use_type_invariant(self);
            assert(self@.dom() =~= self.nodes@.dom());
        }
        self.nodes.len()
    }

    /// The first identifier from `candidate` upwards that no node has yet:
    /// `candidate` itself unless it is in use.
    pub fn unused_key(&self, candidate: u128) -> (id: u128)
        ensures
            first_free(self@.dom(), candidate, id),
            !self@.contains_key(id),
    {
        let ghost taken = self@.dom();
        let ghost mut steps: nat = 0;
        let mut id = candidate;
        let mut tried: usize = 0;
        let count = self.nodes.len();
        proof {
            assert(taken =~= self.nodes@.dom());
            lemma_step_add(candidate, 0, 0);
        }
        loop
            invariant
                taken == self.nodes@.dom(),
                taken.finite(),
                taken.len() == count,
                steps == tried,
                tried <= count,
                id == step(candidate, steps),
                forall|k: nat| k < steps ==> taken.contains(#[trigger] step(candidate, k)),
            ensures
                first_free_at(taken, candidate, steps),
                id == step(candidate, steps),
            decreases count - tried,
        {
            if !self.nodes.contains_key(&id) {
                break ;
            }
            proof {
                assert(taken.contains(step(candidate, steps)));
                lemma_steps_meet_free(taken, candidate, steps + 1);
                lemma_step_add(candidate, steps, 1);
                steps = steps + 1;
            }
            id = next_id(id);
            tried = tried + 1;
        }
        id
    }

    /// Puts a node under its identifier, which no node has yet.
    fn put(&mut self, node: FileNode)
        requires
            !old(self)@.contains_key(node.id),
        ensures
            final(self)@ == old(self)@.insert(node.id, node@),
            keyed_by_id(final(self)@),
    {
        let mut nodes = self.take_nodes();
        let id = node.id;
        nodes.insert(id, node);
        proof {
            assert(node_models(nodes@) =~= old(self)@.insert(id, node@));
        }
        self.nodes = nodes;
    }

    /// The store with its three sample nodes: the first folder under the
    /// identifier `first`, the second folder and the file each under the
    /// first unused identifier from `second` and from `third` upwards.
    pub fn seeded(first: u128, second: u128, third: u128) -> (store: Self)
        ensures
            exists|b: u128, c: u128|
                first_free(set![first], second, b) && first_free(set![first, b], third, c)
                    && store@ == #[trigger] sample_tree(first, b, c),
            keyed_by_id(store@),
    {
        let mut store = FsStore::new();
        store.put(
            FileNode {
                id: first,
                name: "public".to_owned(),
                node_type: NodeType::Folder,
                size: None,
                modified: "2 часа назад".to_owned(),
                extension: None,
                content: None,
                parent: None,
            },
        );
        assert(store@.dom() =~= set![first]);
        let b = store.unused_key(second);
        store.put(
            FileNode {
                id: b,
                name: "src".to_owned(),
                node_type: NodeType::Folder,
                size: None,
                modified: "1 час назад".to_owned(),
                extension: None,
                content: None,
                parent: None,
            },
        );
        assert(store@.dom() =~= set![first, b]);
        let c = store.unused_key(third);
        store.put(
            FileNode {
                id: c,
                name: "package.json".to_owned(),
                node_type: NodeType::File,
                size: Some("2.1 KB".to_owned()),
                modified: "3 дня назад".to_owned(),
                extension: Some("json".to_owned()),
                content: Some("{\n  \"name\": \"project\"\n}".to_owned()),
                parent: None,
            },
        );
        assert(store@ =~= sample_tree(first, b, c));
        store
    }

    /// The store with its three sample nodes under freshly drawn
    /// identifiers.
    pub fn new_mock() -> (store: Self)
        ensures
            exists|a: u128, b: u128, c: u128|
                is_random_uuid(a) && a != b && a != c && b != c && store@ == #[trigger] sample_tree(
                    a,
                    b,
                    c,
                ),
            keyed_by_id(store@),
    {
        let first = random_uuid();
        let second = random_uuid();
        let third = random_uuid();
        let store = Self::seeded(first, second, third);
        proof {
            let (b, c) = choose|b: u128, c: u128|
                first_free(set![first], second, b) && first_free(set![first, b], third, c)
                    && store@ == #[trigger] sample_tree(first, b, c);
            lemma_first_free_is_free(set![first], second, b);
            lemma_first_free_is_free(set![first, b], third, c);
        }
        store
    }

    /// A copy of every node, in no particular order: each node of the store
    /// once, and nothing else.
    pub fn snapshot(&self) -> (all: Vec<FileNode>)
        ensures
            lists(self@, all@.map_values(|n: FileNode| n@)),
    {
        proof {
            use_type_invariant(self);
        }
        let ghost models = self@;
        let mut all: Vec<FileNode> = Vec::new();
        let ghost pairs = self.nodes.iter().remaining();
        for pair in it: self.nodes.iter()
            invariant
                it.seq() == pairs,
                pairs == self.nodes.iter().remaining(),
                all.len() == it.index(),
                forall|k: int| 0 <= k < all.len() ==> all@[k]@ == (*pairs[k].1)@,
        {
            all.push(pair.1.clone());
        }
        proof {
            let out = all@.map_values(|n: FileNode| n@);
            assert(out.len() == models.dom().len()) by {
                assert(models.dom() =~= self.nodes@.dom());
            }
            assert forall|i: int| 0 <= i < out.len() implies models.contains_key(
                #[trigger] out[i].id,
            ) && models[out[i].id] == out[i] by {
                assert(self.nodes@.contains_key(*pairs[i].0));
                assert(models.contains_key(*pairs[i].0));
            }
            assert forall|i: int, j: int| 0 <= i < j < out.len() implies #[trigger] out[i].id
                != #[trigger] out[j].id by {
                assert(self.nodes@.contains_key(*pairs[i].0));
                assert(self.nodes@.contains_key(*pairs[j].0));
                assert(models.contains_key(*pairs[i].0));
                assert(models.contains_key(*pairs[j].0));
                if out[i].id == out[j].id {
                    assert(*pairs[i].0 == *pairs[j].0);
                    assert(*pairs[i].1 == *pairs[j].1);
                    assert(pairs[i] == pairs[j]);
                }
            }
            assert forall|id: u128| #[trigger] models.contains_key(id) implies exists|i: int|
                0 <= i < out.len() && #[trigger] out[i] == models[id] by {
                assert(self.nodes@.contains_key(id));
                assert(pairs.contains((&id, &self.nodes@[id])));
                let i = choose|i: int| 0 <= i < pairs.len() && pairs[i] == (&id, &self.nodes@[id]);
                assert(out[i] == models[id]);
            }
        }
        all
    }

    /// Creates a node from a request under the first unused identifier from
    /// `candidate` upwards and hands back a copy.
    pub fn add(&mut self, candidate: u128, req: CreateNode) -> (node: FileNode)
        ensures
            first_free(old(self)@.dom(), candidate, node.id),
            !old(self)@.contains_key(node.id),
            node@ == fresh_node(req, node.id),
            final(self)@ == old(self)@.insert(node.id, node@),
            final(self)@.dom() == old(self)@.dom().insert(node.id),
            keyed_by_id(final(self)@),
    {
        let id = self.unused_key(candidate);
        let node = FileNode {
            id,
            name: req.name,
            node_type: req.node_type,
            size: Some("0 B".to_owned()),
            modified: "только что".to_owned(),
            extension: None,
            content: Some(String::new()),
            parent: req.parent,
        };
        let copy = node.clone();
        self.put(node);
        copy
    }

    /// Replaces the content of the node with the identifier `id`, marks it
    /// as modified just now and hands back a copy of the changed node;
    /// without such a node nothing changes.
    pub fn write(&mut self, id: u128, content: String) -> (res: Result<FileNode, StoreError>)
        ensures
            keyed_by_id(final(self)@),
            match res {
                Ok(node) => old(self)@.contains_key(id) && node@ == saved(
                    old(self)@[id],
                    content@,
                ) && final(self)@ == old(self)@.insert(id, node@),
                Err(e) => e == StoreError::NotFound && !old(self)@.contains_key(id)
                    && final(self)@ == old(self)@,
            },
    {
        let mut nodes = self.take_nodes();
        let res = match nodes.remove(&id) {
            Some(node) => {
                let changed = FileNode {
                    id: node.id,
                    name: node.name,
                    node_type: node.node_type,
                    size: node.size,
                    modified: "только что".to_owned(),
                    extension: node.extension,
                    content: Some(content),
                    parent: node.parent,
                };
                let copy = changed.clone();
                assert(node@ == old(self)@[id]);
                nodes.insert(id, changed);
                proof {
                    assert(node_models(nodes@) =~= old(self)@.insert(id, copy@));
                }
                Ok(copy)
            },
            None => {
                proof {
                    assert(node_models(nodes@) =~= old(self)@);
                }
                Err(StoreError::NotFound)
            },
        };
        self.nodes = nodes;
        res
    }

    /// Removes the node with the identifier `id`; without such a node nothing
    /// changes.
    pub fn discard(&mut self, id: u128) -> (status: Status)
        ensures
            keyed_by_id(final(self)@),
            final(self)@ == old(self)@.remove(id),
            old(self)@.contains_key(id) ==> status == Status::NoContent,
            !old(self)@.contains_key(id) ==> status == Status::NotFound && final(self)@
                == old(self)@,
    {
        let mut nodes = self.take_nodes();
        let status = match nodes.remove(&id) {
            Some(_) => Status::NoContent,
            None => Status::NotFound,
        };
        proof {
            assert(node_models(nodes@) =~= old(self)@.remove(id));
            if !old(self)@.contains_key(id) {
                assert(old(self)@.remove(id) =~= old(self)@);
            }
        }
        self.nodes = nodes;
        status
    }
}

/// A copy of every node, in no particular order: each node of the store
/// once, and nothing else.
pub fn list(store: &FsStore) -> (all: Vec<FileNode>)
    ensures
        lists(store@, all@.map_values(|n: FileNode| n@)),
{
    store.snapshot()
}

/// Creates a node from a request under a freshly drawn identifier, one that
/// no node had. The rest of the node is fixed by the request.
pub fn create(store: &mut FsStore, req: CreateNode) -> (node: FileNode)
    ensures
        exists|draw: u128|
            is_random_uuid(draw) && #[trigger] first_free(old(store)@.dom(), draw, node.id),
        !old(store)@.contains_key(node.id),
        node@ == fresh_node(req, node.id),
        final(store)@ == old(store)@.insert(node.id, node@),
        final(store)@.dom() == old(store)@.dom().insert(node.id),
        keyed_by_id(final(store)@),
{
    let candidate = random_uuid();
    store.add(candidate, req)
}

/// Saves new content to the node with the identifier `id`, marks it as
/// modified just now and hands back the changed node; without such a node
/// nothing changes and `NotFound` comes back.
pub fn save(store: &mut FsStore, id: u128, req: UpdateFile) -> (res: Result<FileNode, StoreError>)
    ensures
        keyed_by_id(final(store)@),
        match res {
            Ok(node) => old(store)@.contains_key(id) && node@ == saved(
                old(store)@[id],
                req.content@,
            ) && final(store)@ == old(store)@.insert(id, node@),
            Err(e) => e == StoreError::NotFound && !old(store)@.contains_key(id) && final(store)@
                == old(store)@,
        },
{
    store.write(id, req.content)
}

/// Removes the node with the identifier `id`: `NoContent` where there was
/// one, `NotFound` and no change where there was none.
pub fn remove(store: &mut FsStore, id: u128) -> (status: Status)
    ensures
        keyed_by_id(final(store)@),
        final(store)@ == old(store)@.remove(id),
        old(store)@.contains_key(id) ==> status == Status::NoContent,
        !old(store)@.contains_key(id) ==> status == Status::NotFound && final(store)@
            == old(store)@,
{
    store.discard(id)
}

} // verus!
