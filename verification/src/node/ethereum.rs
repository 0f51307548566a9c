use vstd::prelude::*;

use crate::eips::{cancun_target_blob_count, epoch_slots};
use crate::node::builder::{ComponentsBuilder, Node};

verus! {

/// The node of an Ethereum chain.
#[derive(Clone, Copy, Debug, PartialEq, Eq, Structural)]
#[non_exhaustive]
pub struct EthereumNode;

impl Default for EthereumNode {
    fn default() -> (made: EthereumNode)
        ensures
            made == EthereumNode,
    {
        EthereumNode
    }
}

/// Builds the executor of an Ethereum node.
#[derive(Clone, Copy, Debug, PartialEq, Eq, Structural)]
#[non_exhaustive]
pub struct EthereumExecutorBuilder;

impl Default for EthereumExecutorBuilder {
    fn default() -> (made: EthereumExecutorBuilder)
        ensures
            made == EthereumExecutorBuilder,
    {
        EthereumExecutorBuilder
    }
}

/// Builds the transaction pool of an Ethereum node.
#[derive(Clone, Copy, Debug, PartialEq, Eq, Structural)]
#[non_exhaustive]
pub struct EthereumPoolBuilder;

impl Default for EthereumPoolBuilder {
    fn default() -> (made: EthereumPoolBuilder)
        ensures
            made == EthereumPoolBuilder,
    {
        EthereumPoolBuilder
    }
}

/// Builds the payload service of an Ethereum node.
#[derive(Clone, Copy, Debug, PartialEq, Eq, Structural)]
#[non_exhaustive]
pub struct EthereumPayloadBuilder;

impl Default for EthereumPayloadBuilder {
    fn default() -> (made: EthereumPayloadBuilder)
        ensures
            made == EthereumPayloadBuilder,
    {
        EthereumPayloadBuilder
    }
}

/// Builds the network of an Ethereum node.
#[derive(Clone, Copy, Debug, PartialEq, Eq, Structural)]
#[non_exhaustive]
pub struct EthereumNetworkBuilder;

impl Default for EthereumNetworkBuilder {
    fn default() -> (made: EthereumNetworkBuilder)
        ensures
            made == EthereumNetworkBuilder,
    {
        EthereumNetworkBuilder
    }
}

/// Builds the consensus rules of an Ethereum node.
#[derive(Clone, Copy, Debug, PartialEq, Eq, Structural)]
#[non_exhaustive]
pub struct EthereumConsensusBuilder;

impl Default for EthereumConsensusBuilder {
    fn default() -> (made: EthereumConsensusBuilder)
        ensures
            made == EthereumConsensusBuilder,
    {
        EthereumConsensusBuilder
    }
}

/// Builds the `eth` namespace of an Ethereum node.
#[derive(Clone, Copy, Debug, PartialEq, Eq, Structural)]
#[non_exhaustive]
pub struct EthereumEthApiBuilder;

impl Default for EthereumEthApiBuilder {
    fn default() -> (made: EthereumEthApiBuilder)
        ensures
            made == EthereumEthApiBuilder,
    {
        EthereumEthApiBuilder
    }
}

/// Builds the validator of engine payloads of an Ethereum node.
#[derive(Clone, Copy, Debug, PartialEq, Eq, Structural)]
#[non_exhaustive]
pub struct EthereumEngineValidatorBuilder;

impl Default for EthereumEngineValidatorBuilder {
    fn default() -> (made: EthereumEngineValidatorBuilder)
        ensures
            made == EthereumEngineValidatorBuilder,
    {
        EthereumEngineValidatorBuilder
    }
}

/// Builds the engine API of a node from a payload validator.
#[derive(Clone, Copy, Debug, PartialEq, Eq, Structural)]
pub struct BasicEngineApiBuilder<PVB> {
    pub payload_validator_builder: PVB,
}

/// Builds the tree validator of a node from a payload validator.
#[derive(Clone, Copy, Debug, PartialEq, Eq, Structural)]
pub struct BasicEngineValidatorBuilder<PVB> {
    pub payload_validator_builder: PVB,
}

/// The components builder of an Ethereum node.
pub type EthereumComponents = ComponentsBuilder<
    EthereumPoolBuilder,
    EthereumPayloadBuilder,
    EthereumNetworkBuilder,
    EthereumExecutorBuilder,
    EthereumConsensusBuilder,
>;

/// The components of an Ethereum node, each built by the builder of its kind.
pub open spec fn ethereum_components() -> EthereumComponents {
    ComponentsBuilder {
        pool_builder: EthereumPoolBuilder,
        payload_builder: EthereumPayloadBuilder,
        network_builder: EthereumNetworkBuilder,
        executor_builder: EthereumExecutorBuilder,
        consensus_builder: EthereumConsensusBuilder,
    }
}

impl EthereumNode {
    /// The components builder of an Ethereum node.
    pub fn components() -> (made: EthereumComponents)
        ensures
            made == ethereum_components(),
    {
        ComponentsBuilder::empty()
            .pool(EthereumPoolBuilder)
            .executor(EthereumExecutorBuilder)
            .payload(EthereumPayloadBuilder)
            .network(EthereumNetworkBuilder)
            .consensus(EthereumConsensusBuilder)
    }
}

/// What a node serves over RPC besides its components.
#[derive(Clone, Copy, Debug, PartialEq, Eq, Structural)]
pub struct EthereumAddOns<EthB, PVB, EB, EVB, RpcMiddleware, Handle> {
    pub eth_api_builder: EthB,
    pub payload_validator_builder: PVB,
    pub engine_api_builder: EB,
    pub engine_validator_builder: EVB,
    pub rpc_middleware: RpcMiddleware,
    /// The runtime that the servers run on, where it is not the caller's.
    pub tokio_runtime: Option<Handle>,
}

/// The middleware of a server that has none.
#[derive(Clone, Copy, Debug, PartialEq, Eq, Structural)]
pub struct Identity;

/// The add-ons of an Ethereum node, where nothing else is asked for.
pub type EthereumDefaultAddOns<Handle> = EthereumAddOns<
    EthereumEthApiBuilder,
    EthereumEngineValidatorBuilder,
    BasicEngineApiBuilder<EthereumEngineValidatorBuilder>,
    BasicEngineValidatorBuilder<EthereumEngineValidatorBuilder>,
    Identity,
    Handle,
>;

/// The add-ons of an Ethereum node, where nothing else is asked for.
pub open spec fn ethereum_add_ons<Handle>() -> EthereumDefaultAddOns<Handle> {
    EthereumAddOns {
        eth_api_builder: EthereumEthApiBuilder,
        payload_validator_builder: EthereumEngineValidatorBuilder,
        engine_api_builder: BasicEngineApiBuilder {
            payload_validator_builder: EthereumEngineValidatorBuilder,
        },
        engine_validator_builder: BasicEngineValidatorBuilder {
            payload_validator_builder: EthereumEngineValidatorBuilder,
        },
        rpc_middleware: Identity,
        tokio_runtime: None,
    }
}

impl<Handle> Default for EthereumDefaultAddOns<Handle> {
    fn default() -> (made: EthereumDefaultAddOns<Handle>)
        ensures
            made == ethereum_add_ons::<Handle>(),
    {
        EthereumAddOns::new(
            EthereumEthApiBuilder,
            EthereumEngineValidatorBuilder,
            BasicEngineApiBuilder { payload_validator_builder: EthereumEngineValidatorBuilder },
            BasicEngineValidatorBuilder { payload_validator_builder: EthereumEngineValidatorBuilder },
            Identity,
        )
    }
}

/// A handle of no runtime: an Ethereum node's own add-ons run on the caller's.
pub type NoHandle = ();

impl Node for EthereumNode {
    type ComponentsBuilder = EthereumComponents;

    type AddOns = EthereumDefaultAddOns<NoHandle>;

    open spec fn gives_components(&self, builder: EthereumComponents) -> bool {
        builder == ethereum_components()
    }

    open spec fn gives_add_ons(&self, add_ons: EthereumDefaultAddOns<NoHandle>) -> bool {
        add_ons == ethereum_add_ons::<NoHandle>()
    }

    fn components_builder(&self) -> (builder: EthereumComponents) {
        EthereumNode::components()
    }

    fn add_ons(&self) -> (add_ons: EthereumDefaultAddOns<NoHandle>) {
        EthereumDefaultAddOns::<NoHandle>::default()
    }
}

impl<EthB, PVB, EB, EVB, RpcMiddleware, Handle> EthereumAddOns<
    EthB,
    PVB,
    EB,
    EVB,
    RpcMiddleware,
    Handle,
> {
    /// Add-ons from their builders, on the caller's runtime.
    pub fn new(
        eth_api_builder: EthB,
        payload_validator_builder: PVB,
        engine_api_builder: EB,
        engine_validator_builder: EVB,
        rpc_middleware: RpcMiddleware,
    ) -> (made: Self)
        ensures
            made == (EthereumAddOns {
                eth_api_builder,
                payload_validator_builder,
                engine_api_builder,
                engine_validator_builder,
                rpc_middleware,
                tokio_runtime: None::<Handle>,
            }),
    {
        EthereumAddOns {
            eth_api_builder,
            payload_validator_builder,
            engine_api_builder,
            engine_validator_builder,
            rpc_middleware,
            tokio_runtime: None,
        }
    }

    /// The same add-ons with another engine API.
    pub fn with_engine_api<T>(self, engine_api_builder: T) -> (made: EthereumAddOns<
        EthB,
        PVB,
        T,
        EVB,
        RpcMiddleware,
        Handle,
    >)
        ensures
            made == (EthereumAddOns {
                eth_api_builder: self.eth_api_builder,
                payload_validator_builder: self.payload_validator_builder,
                engine_api_builder,
                engine_validator_builder: self.engine_validator_builder,
                rpc_middleware: self.rpc_middleware,
                tokio_runtime: self.tokio_runtime,
            }),
    {
        EthereumAddOns {
            eth_api_builder: self.eth_api_builder,
            payload_validator_builder: self.payload_validator_builder,
            engine_api_builder,
            engine_validator_builder: self.engine_validator_builder,
            rpc_middleware: self.rpc_middleware,
            tokio_runtime: self.tokio_runtime,
        }
    }

    /// The same add-ons with another payload validator.
    pub fn with_payload_validator<T>(self, payload_validator_builder: T) -> (made: EthereumAddOns<
        EthB,
        T,
        EB,
        EVB,
        RpcMiddleware,
        Handle,
    >)
        ensures
            made == (EthereumAddOns {
                eth_api_builder: self.eth_api_builder,
                payload_validator_builder,
                engine_api_builder: self.engine_api_builder,
                engine_validator_builder: self.engine_validator_builder,
                rpc_middleware: self.rpc_middleware,
                tokio_runtime: self.tokio_runtime,
            }),
    {
        EthereumAddOns {
            eth_api_builder: self.eth_api_builder,
            payload_validator_builder,
            engine_api_builder: self.engine_api_builder,
            engine_validator_builder: self.engine_validator_builder,
            rpc_middleware: self.rpc_middleware,
            tokio_runtime: self.tokio_runtime,
        }
    }

    /// The same add-ons with another middleware.
    pub fn with_rpc_middleware<T>(self, rpc_middleware: T) -> (made: EthereumAddOns<
        EthB,
        PVB,
        EB,
        EVB,
        T,
        Handle,
    >)
        ensures
            made == (EthereumAddOns {
                eth_api_builder: self.eth_api_builder,
                payload_validator_builder: self.payload_validator_builder,
                engine_api_builder: self.engine_api_builder,
                engine_validator_builder: self.engine_validator_builder,
                rpc_middleware,
                tokio_runtime: self.tokio_runtime,
            }),
    {
        EthereumAddOns {
            eth_api_builder: self.eth_api_builder,
            payload_validator_builder: self.payload_validator_builder,
            engine_api_builder: self.engine_api_builder,
            engine_validator_builder: self.engine_validator_builder,
            rpc_middleware,
            tokio_runtime: self.tokio_runtime,
        }
    }

    /// The same add-ons on another runtime.
    pub fn with_tokio_runtime(self, tokio_runtime: Option<Handle>) -> (made: Self)
        ensures
            made == (EthereumAddOns {
                eth_api_builder: self.eth_api_builder,
                payload_validator_builder: self.payload_validator_builder,
                engine_api_builder: self.engine_api_builder,
                engine_validator_builder: self.engine_validator_builder,
                rpc_middleware: self.rpc_middleware,
                tokio_runtime,
            }),
    {
        EthereumAddOns {
            eth_api_builder: self.eth_api_builder,
            payload_validator_builder: self.payload_validator_builder,
            engine_api_builder: self.engine_api_builder,
            engine_validator_builder: self.engine_validator_builder,
            rpc_middleware: self.rpc_middleware,
            tokio_runtime,
        }
    }
}

/// A namespace that an Ethereum node adds to its servers.
#[derive(Clone, Copy, Debug, PartialEq, Eq, Structural)]
pub enum AddOnModule {
    /// Validation of blocks that builders submit.
    Flashbots,
    /// The configuration of the chain's forks.
    Eth,
    /// Building of blocks for tests.
    Testing {
        skip_invalid_transactions: bool,
    },
}

/// Which of the namespaces that a node can add were asked for.
#[derive(Clone, Copy, Debug, PartialEq, Eq, Structural)]
pub struct ConfiguredModules {
    pub flashbots: bool,
    pub eth: bool,
    pub testing: bool,
}

impl ConfiguredModules {
    /// Whether the namespace of a module was asked for.
    pub open spec fn has(self, module: AddOnModule) -> bool {
        match module {
            AddOnModule::Flashbots => self.flashbots,
            AddOnModule::Eth => self.eth,
            AddOnModule::Testing { .. } => self.testing,
        }
    }

    /// Whether the namespace of a module was asked for.
    pub fn contains(&self, module: AddOnModule) -> (contained: bool)
        ensures
            contained == self.has(module),
    {
        match module {
            AddOnModule::Flashbots => self.flashbots,
            AddOnModule::Eth => self.eth,
            AddOnModule::Testing { .. } => self.testing,
        }
    }
}

/// What an Ethereum node can add to its servers, in the order in which it adds it.
pub open spec fn offered_modules(skip_invalid_transactions: bool) -> Seq<AddOnModule> {
    seq![
        AddOnModule::Flashbots,
        AddOnModule::Eth,
        AddOnModule::Testing { skip_invalid_transactions },
    ]
}

/// The namespaces that an Ethereum node adds to its servers: those it offers that were asked for.
pub fn launch_add_ons(configured: ConfiguredModules, testing_skip_invalid_transactions: bool) -> (merged:
    Vec<AddOnModule>)
    ensures
        merged@ == offered_modules(testing_skip_invalid_transactions).filter(
            |module: AddOnModule| configured.has(module),
        ),
{
    let mut offered: Vec<AddOnModule> = Vec::new();
    offered.push(AddOnModule::Flashbots);
    offered.push(AddOnModule::Eth);
    offered.push(
        AddOnModule::Testing { skip_invalid_transactions: testing_skip_invalid_transactions },
    );
    let mut merged: Vec<AddOnModule> = Vec::new();
    let ghost asked = |module: AddOnModule| configured.has(module);
    let mut i: usize = 0;
    while i < offered.len()
        invariant
            0 <= i <= offered@.len(),
            offered@ == offered_modules(testing_skip_invalid_transactions),
            asked == (|module: AddOnModule| configured.has(module)),
            merged@ == offered@.take(i as int).filter(asked),
        decreases offered@.len() - i,
    {
        let module = offered[i];
        proof {
            reveal(Seq::filter);
            assert(offered@.take(i + 1).drop_last() =~= offered@.take(i as int));
        }
        if configured.contains(module) {
            merged.push(module);
        }
        i += 1;
    }
    proof {
        assert(offered@.take(offered@.len() as int) =~= offered@);
    }
    merged
}

/// What the pool is asked for.
#[derive(Clone, Copy, Debug, PartialEq, Eq, Structural)]
pub struct TxPoolArgs {
    pub disable_blobs_support: bool,
    /// How many blob transactions the pool holds at most.
    pub blobpool_max_count: usize,
    /// How many blobs stay in memory, where it is said.
    pub blob_cache_size: Option<u32>,
    /// How many bytes of input a transaction may have.
    pub max_tx_input_bytes: usize,
    /// How much gas a transaction may ask for, where there is a limit.
    pub max_tx_gas_limit: Option<u64>,
    /// The least priority fee of a transaction, where there is one.
    pub minimum_priority_fee: Option<u128>,
    /// How many tasks check transactions besides the first.
    pub additional_validation_tasks: usize,
    /// How much a transaction that is sent to this node over RPC may cost.
    pub rpc_tx_fee_cap: u128,
}

/// What the pool's blob store and validator are set to.
#[derive(Clone, Copy, Debug, PartialEq, Eq, Structural)]
pub struct PoolSettings {
    /// How many blobs stay in memory.
    pub blob_cache_size: u32,
    /// The time of the head that transactions are checked against.
    pub head_timestamp: u64,
    /// Whether blob transactions are accepted.
    pub eip4844: bool,
    pub max_tx_input_bytes: usize,
    pub tx_fee_cap: u128,
    pub max_tx_gas_limit: Option<u64>,
    pub minimum_priority_fee: Option<u128>,
    pub additional_tasks: usize,
    /// Whether the trusted setup of the blob commitments is loaded in advance.
    pub load_kzg_settings: bool,
}

/// How many blobs stay in memory where nothing is said: two epochs of them, as many a block as the
/// chain aims at now, or as Cancun aimed at where the chain has no blobs yet.
pub open spec fn default_blob_cache(target_blob_count: Option<u64>) -> int {
    match target_blob_count {
        Some(count) => count * 32 * 2,
        None => 3int * 32 * 2,
    }
}

/// What the pool is set to.
pub open spec fn pool_settings(
    args: TxPoolArgs,
    head_timestamp: u64,
    target_blob_count: Option<u64>,
) -> PoolSettings {
    let eip4844 = !args.disable_blobs_support && args.blobpool_max_count != 0;
    PoolSettings {
        blob_cache_size: match args.blob_cache_size {
            Some(size) => size,
            None => (default_blob_cache(target_blob_count) % 0x1_0000_0000) as u32,
        },
        head_timestamp,
        eip4844,
        max_tx_input_bytes: args.max_tx_input_bytes,
        tx_fee_cap: args.rpc_tx_fee_cap,
        max_tx_gas_limit: args.max_tx_gas_limit,
        minimum_priority_fee: args.minimum_priority_fee,
        additional_tasks: args.additional_validation_tasks,
        load_kzg_settings: eip4844,
    }
}

impl EthereumPoolBuilder {
    /// What the pool's blob store and validator are set to on a chain with this head. The chain's
    /// present target number of blobs in a block, if it has one, counts only where no cache size
    /// is asked for; a product that 32 bits do not hold loses its upper bits.
    pub fn build_pool(
        self,
        args: TxPoolArgs,
        head_timestamp: u64,
        target_blob_count: Option<u64>,
    ) -> (settings: PoolSettings)
        requires
            args.blob_cache_size is None ==> default_blob_cache(target_blob_count) <= u64::MAX,
        ensures
            settings.blob_cache_size == (match args.blob_cache_size {
                Some(size) => size as int,
                None => default_blob_cache(target_blob_count) % 0x1_0000_0000,
            }),
            settings.head_timestamp == head_timestamp,
            settings.eip4844 == (!args.disable_blobs_support && args.blobpool_max_count != 0),
            settings.max_tx_input_bytes == args.max_tx_input_bytes,
            settings.tx_fee_cap == args.rpc_tx_fee_cap,
            settings.max_tx_gas_limit == args.max_tx_gas_limit,
            settings.minimum_priority_fee == args.minimum_priority_fee,
            settings.additional_tasks == args.additional_validation_tasks,
            settings.load_kzg_settings == settings.eip4844,
            settings == pool_settings(args, head_timestamp, target_blob_count),
    {
        let blobs_disabled = args.disable_blobs_support || args.blobpool_max_count == 0;
        let blob_cache_size: u32 = match args.blob_cache_size {
            Some(size) => size,
            None => {
                let count: u64 = match target_blob_count {
                    Some(count) => count,
                    None => cancun_target_blob_count(),
                };
                let blobs: u64 = count * epoch_slots() * 2;
                assert(blobs as u32 == blobs % 0x1_0000_0000) by (bit_vector);
                #[verifier::truncate]
                let size: u32 = blobs as u32;
                size
            },
        };
        let eip4844 = !blobs_disabled;
        PoolSettings {
            blob_cache_size,
            head_timestamp,
            eip4844,
            max_tx_input_bytes: args.max_tx_input_bytes,
            tx_fee_cap: args.rpc_tx_fee_cap,
            max_tx_gas_limit: args.max_tx_gas_limit,
            minimum_priority_fee: args.minimum_priority_fee,
            additional_tasks: args.additional_validation_tasks,
            load_kzg_settings: eip4844,
        }
    }
}

/// A namespace is added exactly where it is offered and was asked for: none is added unasked, none
/// that was asked for is left out, and building blocks for tests treats invalid transactions as it
/// was told to. The validation of submitted blocks is added first and the building of blocks last.
pub proof fn lemma_added_modules(configured: ConfiguredModules, skip: bool)
    ensures
        ({
            let added = offered_modules(skip).filter(
                |module: AddOnModule| configured.has(module),
            );
            &&& added.contains(AddOnModule::Flashbots) <==> configured.flashbots
            &&& added.contains(AddOnModule::Eth) <==> configured.eth
            &&& added.contains(AddOnModule::Testing { skip_invalid_transactions: skip })
                <==> configured.testing
            &&& !added.contains(AddOnModule::Testing { skip_invalid_transactions: !skip })
            &&& added.no_duplicates()
            &&& configured.flashbots ==> added[0] == AddOnModule::Flashbots
            &&& configured.testing ==> added.last() is Testing
        }),
{
    let pred = |module: AddOnModule| configured.has(module);
    let testing = AddOnModule::Testing { skip_invalid_transactions: skip };
    let none = Seq::<AddOnModule>::empty();
    let one = none.push(AddOnModule::Flashbots);
    let two = one.push(AddOnModule::Eth);
    assert(offered_modules(skip) =~= two.push(testing));
    assert(none.filter(pred) =~= none) by {
        reveal(Seq::filter);
    }
    none.lemma_filter_push(AddOnModule::Flashbots, pred);
    one.lemma_filter_push(AddOnModule::Eth, pred);
    two.lemma_filter_push(testing, pred);
    let added = offered_modules(skip).filter(pred);
    let first: Seq<AddOnModule> = if configured.flashbots {
        one
    } else {
        none
    };
    let second = if configured.eth {
        first.push(AddOnModule::Eth)
    } else {
        first
    };
    assert(added == if configured.testing {
        second.push(testing)
    } else {
        second
    });
    if configured.flashbots {
        assert(added[0] == AddOnModule::Flashbots);
    }
    if configured.eth {
        assert(added[first.len() as int] == AddOnModule::Eth);
    }
    if configured.testing {
        assert(added[second.len() as int] == testing);
    }
}

/// Where nothing is said each blob that a block aims at keeps two epochs of 32 slots in memory, and a
/// chain without blobs is treated as one that aims at three.
pub proof fn lemma_blob_cache_by_target(count: u64)
    ensures
        count < u64::MAX ==> default_blob_cache(Some((count + 1) as u64)) == default_blob_cache(
            Some(count),
        ) + 64,
        default_blob_cache(Some(0)) == 0,
        default_blob_cache(None) == default_blob_cache(Some(3)),
{
}

/// What the pool is set to follows what was asked for, each setting from its own argument. Blob
/// transactions are accepted, and the trusted setup loaded for them, exactly where they are supported
/// and the pool has room for some; a size of the cache that is asked for stays.
pub proof fn lemma_pool_settings(
    args: TxPoolArgs,
    head_timestamp: u64,
    target_blob_count: Option<u64>,
)
    ensures
        ({
            let s = pool_settings(args, head_timestamp, target_blob_count);
            &&& s.eip4844 <==> !args.disable_blobs_support && args.blobpool_max_count > 0
            &&& s.load_kzg_settings <==> s.eip4844
            &&& s.head_timestamp == head_timestamp
            &&& s.max_tx_input_bytes == args.max_tx_input_bytes
            &&& s.tx_fee_cap == args.rpc_tx_fee_cap
            &&& s.max_tx_gas_limit == args.max_tx_gas_limit
            &&& s.minimum_priority_fee == args.minimum_priority_fee
            &&& s.additional_tasks == args.additional_validation_tasks
            &&& args.blob_cache_size matches Some(size) ==> s.blob_cache_size == size
            &&& args.blob_cache_size is None && (target_blob_count matches Some(count) && count
                < 0x400_0000) ==> s.blob_cache_size == 64 * target_blob_count->0
            &&& args.blob_cache_size is None && target_blob_count is None ==> s.blob_cache_size
                == 192
        }),
{
}

} // verus!
