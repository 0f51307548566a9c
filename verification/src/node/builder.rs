use vstd::prelude::*;

use core::marker::PhantomData;

verus! {

/// The builders of a node's components.
#[derive(Clone, Copy, Debug, PartialEq, Eq, Structural)]
pub struct ComponentsBuilder<PoolB, PayloadB, NetworkB, ExecB, ConsB> {
    pub pool_builder: PoolB,
    pub payload_builder: PayloadB,
    pub network_builder: NetworkB,
    pub executor_builder: ExecB,
    pub consensus_builder: ConsB,
}

impl ComponentsBuilder<(), (), (), (), ()> {
    /// No builders yet.
    pub fn empty() -> (made: Self)
        ensures
            made == (ComponentsBuilder {
                pool_builder: (),
                payload_builder: (),
                network_builder: (),
                executor_builder: (),
                consensus_builder: (),
            }),
    {
        ComponentsBuilder {
            pool_builder: (),
            payload_builder: (),
            network_builder: (),
            executor_builder: (),
            consensus_builder: (),
        }
    }
}

impl<PoolB, PayloadB, NetworkB, ExecB, ConsB> ComponentsBuilder<
    PoolB,
    PayloadB,
    NetworkB,
    ExecB,
    ConsB,
> {
    /// The same builders with another one for the pool.
    pub fn pool<T>(self, pool_builder: T) -> (made: ComponentsBuilder<
        T,
        PayloadB,
        NetworkB,
        ExecB,
        ConsB,
    >)
        ensures
            made.pool_builder == pool_builder,
            made.payload_builder == self.payload_builder,
            made.network_builder == self.network_builder,
            made.executor_builder == self.executor_builder,
            made.consensus_builder == self.consensus_builder,
    {
        ComponentsBuilder {
            pool_builder,
            payload_builder: self.payload_builder,
            network_builder: self.network_builder,
            executor_builder: self.executor_builder,
            consensus_builder: self.consensus_builder,
        }
    }

    /// The same builders with another one for payloads.
    pub fn payload<T>(self, payload_builder: T) -> (made: ComponentsBuilder<
        PoolB,
        T,
        NetworkB,
        ExecB,
        ConsB,
    >)
        ensures
            made.pool_builder == self.pool_builder,
            made.payload_builder == payload_builder,
            made.network_builder == self.network_builder,
            made.executor_builder == self.executor_builder,
            made.consensus_builder == self.consensus_builder,
    {
        ComponentsBuilder {
            pool_builder: self.pool_builder,
            payload_builder,
            network_builder: self.network_builder,
            executor_builder: self.executor_builder,
            consensus_builder: self.consensus_builder,
        }
    }

    /// The same builders with another one for the network.
    pub fn network<T>(self, network_builder: T) -> (made: ComponentsBuilder<
        PoolB,
        PayloadB,
        T,
        ExecB,
        ConsB,
    >)
        ensures
            made.pool_builder == self.pool_builder,
            made.payload_builder == self.payload_builder,
            made.network_builder == network_builder,
            made.executor_builder == self.executor_builder,
            made.consensus_builder == self.consensus_builder,
    {
        ComponentsBuilder {
            pool_builder: self.pool_builder,
            payload_builder: self.payload_builder,
            network_builder,
            executor_builder: self.executor_builder,
            consensus_builder: self.consensus_builder,
        }
    }

    /// The same builders with another one for the executor.
    pub fn executor<T>(self, executor_builder: T) -> (made: ComponentsBuilder<
        PoolB,
        PayloadB,
        NetworkB,
        T,
        ConsB,
    >)
        ensures
            made.pool_builder == self.pool_builder,
            made.payload_builder == self.payload_builder,
            made.network_builder == self.network_builder,
            made.executor_builder == executor_builder,
            made.consensus_builder == self.consensus_builder,
    {
        ComponentsBuilder {
            pool_builder: self.pool_builder,
            payload_builder: self.payload_builder,
            network_builder: self.network_builder,
            executor_builder,
            consensus_builder: self.consensus_builder,
        }
    }

    /// The same builders with another one for the consensus rules.
    pub fn consensus<T>(self, consensus_builder: T) -> (made: ComponentsBuilder<
        PoolB,
        PayloadB,
        NetworkB,
        ExecB,
        T,
    >)
        ensures
            made.pool_builder == self.pool_builder,
            made.payload_builder == self.payload_builder,
            made.network_builder == self.network_builder,
            made.executor_builder == self.executor_builder,
            made.consensus_builder == consensus_builder,
    {
        ComponentsBuilder {
            pool_builder: self.pool_builder,
            payload_builder: self.payload_builder,
            network_builder: self.network_builder,
            executor_builder: self.executor_builder,
            consensus_builder,
        }
    }
}

/// A kind of node: it comes with the builder of its components and with its add-ons.
pub trait Node: Sized {
    type ComponentsBuilder;

    type AddOns;

    /// Whether [`Node::components_builder`] can return a builder.
    spec fn gives_components(&self, builder: Self::ComponentsBuilder) -> bool;

    /// Whether [`Node::add_ons`] can return some add-ons.
    spec fn gives_add_ons(&self, add_ons: Self::AddOns) -> bool;

    /// The builder of the node's components.
    fn components_builder(&self) -> (builder: Self::ComponentsBuilder)
        ensures
            self.gives_components(builder),
    ;

    /// What the node runs besides its components.
    fn add_ons(&self) -> (add_ons: Self::AddOns)
        ensures
            self.gives_add_ons(add_ons),
    ;
}

/// A node put together from its types, the builder of its components and its add-ons.
#[derive(Debug)]
pub struct AnyNode<N, C, AO> {
    pub types: PhantomData<N>,
    pub components: C,
    pub extras: AO,
}

impl AnyNode<(), (), ()> {
    /// A node of which nothing is said yet.
    pub fn empty() -> (made: Self)
        ensures
            made.components == (),
            made.extras == (),
    {
        AnyNode { types: PhantomData, components: (), extras: () }
    }
}

impl<N, C, AO> AnyNode<N, C, AO> {
    /// The same node over other types.
    pub fn types<T>(self) -> (made: AnyNode<T, C, AO>)
        ensures
            made.components == self.components,
            made.extras == self.extras,
    {
        AnyNode { types: PhantomData, components: self.components, extras: self.extras }
    }

    /// The same node with another builder of its components.
    pub fn components_builder<T>(self, value: T) -> (made: AnyNode<N, T, AO>)
        ensures
            made.components == value,
            made.extras == self.extras,
    {
        AnyNode { types: PhantomData, components: value, extras: self.extras }
    }

    /// The same node with other add-ons.
    pub fn add_ons<T>(self, value: T) -> (made: AnyNode<N, C, T>)
        ensures
            made.components == self.components,
            made.extras == value,
    {
        AnyNode { types: PhantomData, components: self.components, extras: value }
    }
}

/// A node put together gives out clones of its parts.
impl<N, C: Clone, AO: Clone> Node for AnyNode<N, C, AO> {
    type ComponentsBuilder = C;

    type AddOns = AO;

    open spec fn gives_components(&self, builder: C) -> bool {
        cloned(self.components, builder)
    }

    open spec fn gives_add_ons(&self, add_ons: AO) -> bool {
        cloned(self.extras, add_ons)
    }

    fn components_builder(&self) -> (builder: C) {
        self.components.clone()
    }

    fn add_ons(&self) -> (add_ons: AO) {
        self.extras.clone()
    }
}

/// The components of a node.
#[derive(Clone, Copy, Debug, PartialEq, Eq, Structural)]
pub struct Components<Network, Pool, EVM, Consensus, PayloadBuilder> {
    pub transaction_pool: Pool,
    pub evm_config: EVM,
    pub consensus: Consensus,
    pub network: Network,
    pub payload_builder_handle: PayloadBuilder,
}

/// Access to the components of a node.
pub trait NodeComponents {
    type Pool;

    type Evm;

    type Consensus;

    type Network;

    type PayloadBuilder;

    /// The components by name.
    spec fn parts(&self) -> Components<
        Self::Network,
        Self::Pool,
        Self::Evm,
        Self::Consensus,
        Self::PayloadBuilder,
    >;

    fn pool(&self) -> (part: &Self::Pool)
        ensures
            *part == self.parts().transaction_pool,
    ;

    fn evm_config(&self) -> (part: &Self::Evm)
        ensures
            *part == self.parts().evm_config,
    ;

    fn consensus(&self) -> (part: &Self::Consensus)
        ensures
            *part == self.parts().consensus,
    ;

    fn network(&self) -> (part: &Self::Network)
        ensures
            *part == self.parts().network,
    ;

    fn payload_builder_handle(&self) -> (part: &Self::PayloadBuilder)
        ensures
            *part == self.parts().payload_builder_handle,
    ;
}

impl<Network, Pool, EVM, Consensus, PayloadBuilder> NodeComponents for Components<
    Network,
    Pool,
    EVM,
    Consensus,
    PayloadBuilder,
> {
    type Pool = Pool;

    type Evm = EVM;

    type Consensus = Consensus;

    type Network = Network;

    type PayloadBuilder = PayloadBuilder;

    open spec fn parts(&self) -> Components<Network, Pool, EVM, Consensus, PayloadBuilder> {
        *self
    }

    fn pool(&self) -> (part: &Pool) {
        &self.transaction_pool
    }

    fn evm_config(&self) -> (part: &EVM) {
        &self.evm_config
    }

    fn consensus(&self) -> (part: &Consensus) {
        &self.consensus
    }

    fn network(&self) -> (part: &Network) {
        &self.network
    }

    fn payload_builder_handle(&self) -> (part: &PayloadBuilder) {
        &self.payload_builder_handle
    }
}

/// The servers of a running node.
#[derive(Clone, Copy, Debug, PartialEq, Eq, Structural)]
pub struct RpcServerHandles<Rpc, Auth> {
    /// The server that everyone may ask.
    pub rpc: Rpc,
    /// The server of the consensus client, which authenticates itself.
    pub auth: Auth,
}

/// A running node: its components, and the servers that its add-ons run.
#[derive(Clone, Copy, Debug, PartialEq, Eq, Structural)]
pub struct FullNode<C, Provider, Executor, Config, Directory, Rpc, Auth> {
    pub components: C,
    pub provider: Provider,
    pub task_executor: Executor,
    pub config: Config,
    pub data_dir: Directory,
    pub add_ons_handle: RpcServerHandles<Rpc, Auth>,
}

impl<C, Provider, Executor, Config, Directory, Rpc, Auth> FullNode<
    C,
    Provider,
    Executor,
    Config,
    Directory,
    Rpc,
    Auth,
> {
    /// The server that everyone may ask.
    pub fn rpc_server_handle(&self) -> (handle: &Rpc)
        ensures
            *handle == self.add_ons_handle.rpc,
    {
        &self.add_ons_handle.rpc
    }

    /// The server of the consensus client.
    pub fn auth_server_handle(&self) -> (handle: &Auth)
        ensures
            *handle == self.add_ons_handle.auth,
    {
        &self.add_ons_handle.auth
    }
}

} // verus!
