//! A schema over a graph, and the insertion transaction with its triggers.
use vstd::prelude::*;
use crate::command::{Command, LiFoChain, NoopCommand};
use crate::graph::{Graph, Identify, has_key, put_node};

verus! {

/// A schema holds a graph and is the target of transactions.
pub struct Schema<T> {
    graph: Graph<T>,
}

impl<T: Identify> Schema<T> {
    pub closed spec fn graph_spec(&self) -> Graph<T> {
        self.graph
    }

    pub open spec fn wf(&self) -> bool {
        self.graph_spec().wf()
    }

    pub fn new() -> (r: Self)
        ensures
            r.wf(),
            r.graph_spec()@ == Seq::<T>::empty(),
    {
        Schema { graph: Graph::new() }
    }

    /// Read access to the graph of the schema.
    pub fn graph(&self) -> (r: &Graph<T>)
        ensures
            *r == self.graph_spec(),
    {
        &self.graph
    }
}

/// The context for the before-insertion triggers.
pub struct NodeToInsert<'a, T> {
    /// The graph in which the node is being inserted.
    pub graph: &'a Graph<T>,
    /// The node being inserted into the schema.
    pub node: T,
}

/// The context of the after-insertion triggers.
pub struct InsertedNode<'a, T> {
    /// The schema in which the node has been inserted.
    pub schema: &'a Schema<T>,
    /// The id of the inserted node.
    pub node: u64,
}

/// An insertion transaction for a node into a schema.
pub struct Insert<T, B, A> {
    /// The node being inserted into the schema.
    pub node: T,
    /// The command to execute before inserting the node.
    ///
    /// If this command fails the whole transaction is aborted.
    pub before: B,
    /// The command to execute once the insertion has been performed.
    ///
    /// If this command fails the transaction is not rolled back, but its error is
    /// the transaction's result.
    pub after: A,
}

/// A transaction being configured with triggers.
pub struct Wrapper<I> {
    pub inner: I,
}

impl<T> Insert<T, NoopCommand, NoopCommand> {
    pub fn new(node: T) -> (r: Self)
        ensures
            r.node == node,
    {
        Insert { node, before: NoopCommand, after: NoopCommand }
    }
}

impl<T, B, A> Insert<T, B, A> {
    /// Configure triggers for this transaction.
    pub fn with_trigger(self) -> (r: Wrapper<Self>)
        ensures
            r.inner == self,
    {
        Wrapper { inner: self }
    }
}

impl<T, B, A> Wrapper<Insert<T, B, A>> {
    /// Configures the given command as a before insertion trigger: it runs before
    /// every trigger configured earlier.
    pub fn before<C>(self, command: C) -> (r: Insert<T, LiFoChain<C, B>, A>)
        ensures
            r.node == self.inner.node,
            r.before == (LiFoChain { head: self.inner.before, value: command }),
            r.after == self.inner.after,
    {
        Insert {
            node: self.inner.node,
            before: LiFoChain { head: self.inner.before, value: command },
            after: self.inner.after,
        }
    }

    /// Configures the given command as an after insertion trigger: it runs before
    /// every trigger configured earlier.
    pub fn after<C>(self, command: C) -> (r: Insert<T, B, LiFoChain<C, A>>)
        ensures
            r.node == self.inner.node,
            r.before == self.inner.before,
            r.after == (LiFoChain { head: self.inner.after, value: command }),
    {
        Insert {
            node: self.inner.node,
            before: self.inner.before,
            after: LiFoChain { head: self.inner.after, value: command },
        }
    }
}

impl<T: Identify, B, A> Insert<T, B, A> {
    /// The node as the before triggers leave it, and their verdict, on `schema`.
    pub open spec fn before_outcome<E>(self, schema: Schema<T>) -> (T, Result<(), E>) where
        B: for<'b> Command<NodeToInsert<'b, T>, E>,
     {
        let (ctx, rb) = self.before.effect(
            NodeToInsert { graph: &schema.graph_spec(), node: self.node },
        );
        (ctx.node, rb)
    }

    /// The verdict of the after triggers on the schema `schema` holding node `k`.
    pub open spec fn after_outcome<E>(self, schema: Schema<T>, k: u64) -> Result<(), E> where
        A: for<'a> Command<InsertedNode<'a, T>, E>,
     {
        self.after.effect(InsertedNode { schema: &schema, node: k }).1
    }

    /// Running the transaction on `pre` may leave `post` and return `r`.
    pub open spec fn executed<E>(self, pre: Schema<T>, post: Schema<T>, r: Result<(), E>) -> bool where
        B: for<'b> Command<NodeToInsert<'b, T>, E>,
        A: for<'a> Command<InsertedNode<'a, T>, E>,
     {
        let (node, rb) = self.before_outcome(pre);
        match rb {
            Err(e) => r == Err::<(), E>(e) && post == pre,
            Ok(()) => {
                &&& post.graph_spec()@ == put_node(pre.graph_spec()@, node)
                &&& r == self.after_outcome(post, node.key())
            },
        }
    }

    /// Runs the transaction on `schema`.
    ///
    /// The before triggers see the graph and may change or reject the node; on a
    /// rejection the schema is left as it was. Otherwise the node, as the triggers
    /// left it, is put into the graph, and then the after triggers run: their result
    /// is the transaction's, and a failure of theirs keeps the insertion.
    pub fn execute<E>(self, schema: &mut Schema<T>) -> (r: Result<(), E>) where
        B: for<'b> Command<NodeToInsert<'b, T>, E>,
        A: for<'a> Command<InsertedNode<'a, T>, E>,

        requires
            old(schema).wf(),
        ensures
            final(schema).wf(),
            self.executed(*old(schema), *final(schema), r),
    {
        let inserted_id = {
            let mut payload = NodeToInsert { graph: &schema.graph, node: self.node };
            let rb = self.before.execute(&mut payload);
            match rb {
                Ok(()) => {},
                Err(e) => {
                    return Err(e);
                },
            }
            let final_node = payload.node;
            let inserted_id = final_node.id();
            schema.graph.insert(final_node);
            inserted_id
        };
        let mut payload = InsertedNode { schema: &*schema, node: inserted_id };
        self.after.execute(&mut payload)
    }
}

/// When the before triggers accept the node and its identifier is new to the graph,
/// the graph afterwards holds exactly one node more: the accepted node, under its
/// identifier, after all the nodes it held before.
pub proof fn lemma_accepted_insert_adds_one_node<T: Identify, B, A, E>(
    ins: Insert<T, B, A>,
    pre: Schema<T>,
    post: Schema<T>,
    r: Result<(), E>,
) where
    B: for<'b> Command<NodeToInsert<'b, T>, E>,
    A: for<'a> Command<InsertedNode<'a, T>, E>,

    requires
        pre.wf(),
        ins.executed(pre, post, r),
        ins.before_outcome::<E>(pre).1 is Ok,
        !has_key(pre.graph_spec()@, ins.before_outcome::<E>(pre).0.key()),
    ensures
        post.graph_spec()@.len() == pre.graph_spec()@.len() + 1,
        post.graph_spec()@ == pre.graph_spec()@.push(ins.before_outcome::<E>(pre).0),
        has_key(post.graph_spec()@, ins.before_outcome::<E>(pre).0.key()),
{
    let node = ins.before_outcome::<E>(pre).0;
    let g = post.graph_spec()@;
    assert(g[g.len() - 1] == node);
}

/// When a before trigger fails, the schema is left as it was and the transaction
/// returns that trigger's error.
pub proof fn lemma_rejected_insert_changes_nothing<T: Identify, B, A, E>(
    ins: Insert<T, B, A>,
    pre: Schema<T>,
    post: Schema<T>,
    r: Result<(), E>,
) where
    B: for<'b> Command<NodeToInsert<'b, T>, E>,
    A: for<'a> Command<InsertedNode<'a, T>, E>,

    requires
        ins.executed(pre, post, r),
        ins.before_outcome::<E>(pre).1 is Err,
    ensures
        post == pre,
        post.graph_spec()@.len() == pre.graph_spec()@.len(),
        r == ins.before_outcome::<E>(pre).1,
{
}

/// When the before triggers accept the node and an after trigger fails, the graph
/// still holds the inserted node and the transaction returns the after triggers' error.
pub proof fn lemma_failed_after_trigger_keeps_node<T: Identify, B, A, E>(
    ins: Insert<T, B, A>,
    pre: Schema<T>,
    post: Schema<T>,
    r: Result<(), E>,
) where
    B: for<'b> Command<NodeToInsert<'b, T>, E>,
    A: for<'a> Command<InsertedNode<'a, T>, E>,

    requires
        ins.executed(pre, post, r),
        ins.before_outcome::<E>(pre).1 is Ok,
        ins.after_outcome::<E>(post, ins.before_outcome::<E>(pre).0.key()) is Err,
    ensures
        post.graph_spec()@.contains(ins.before_outcome::<E>(pre).0),
        has_key(post.graph_spec()@, ins.before_outcome::<E>(pre).0.key()),
        r == ins.after_outcome::<E>(post, ins.before_outcome::<E>(pre).0.key()),
        r is Err,
{
    let node = ins.before_outcome::<E>(pre).0;
    let g0 = pre.graph_spec()@;
    let g = post.graph_spec()@;
    if has_key(g0, node.key()) {
        let i = choose|i: int| 0 <= i < g0.len() && (#[trigger] g0[i]).key() == node.key();
        assert(g[i] == node);
    } else {
        assert(g[g.len() - 1] == node);
    }
}

} // verus!
