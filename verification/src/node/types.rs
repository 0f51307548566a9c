use vstd::prelude::*;

use core::marker::PhantomData;

verus! {

/// The types that a node is made of.
///
/// The trait is stateless: it names types and nothing else.
pub trait NodeTypes {
    /// The blocks, transactions and receipts of the chain.
    type Primitives;

    /// The rules of the chain.
    type ChainSpec;

    /// How the primitives are written to disk.
    type Storage;

    /// What the node exchanges with its consensus client.
    type Payload;
}

/// The types of a node together with that of its database.
pub trait NodeTypesWithDB: NodeTypes {
    type DB;
}

/// The types of a node joined with the type of a database.
#[derive(Debug)]
pub struct NodeTypesWithDBAdapter<Types, DB> {
    pub types: PhantomData<Types>,
    pub db: PhantomData<DB>,
}

impl<Types, DB> NodeTypesWithDBAdapter<Types, DB> {
    /// The two joined. No value of either is made.
    pub fn new() -> (made: Self)
        ensures
            made == (NodeTypesWithDBAdapter { types: PhantomData::<Types>, db: PhantomData::<DB> }),
    {
        NodeTypesWithDBAdapter { types: PhantomData, db: PhantomData }
    }
}

impl<Types: NodeTypes, DB> NodeTypes for NodeTypesWithDBAdapter<Types, DB> {
    type Primitives = Types::Primitives;

    type ChainSpec = Types::ChainSpec;

    type Storage = Types::Storage;

    type Payload = Types::Payload;
}

impl<Types: NodeTypes, DB> NodeTypesWithDB for NodeTypesWithDBAdapter<Types, DB> {
    type DB = DB;
}

/// The types of a node, chosen one by one.
#[derive(Debug)]
pub struct AnyNodeTypes<P, C, S, PL>(
    pub PhantomData<P>,
    pub PhantomData<C>,
    pub PhantomData<S>,
    pub PhantomData<PL>,
);

impl<P, C, S, PL> AnyNodeTypes<P, C, S, PL> {
    /// The only value of these types.
    pub open spec fn spec_new() -> Self {
        AnyNodeTypes(PhantomData::<P>, PhantomData::<C>, PhantomData::<S>, PhantomData::<PL>)
    }

    /// The only value of these types.
    pub fn new() -> (made: Self)
        ensures
            made == AnyNodeTypes::<P, C, S, PL>::spec_new(),
    {
        AnyNodeTypes(PhantomData, PhantomData, PhantomData, PhantomData)
    }

    /// The same types with other primitives.
    pub fn primitives<T>(self) -> (made: AnyNodeTypes<T, C, S, PL>)
        ensures
            made == AnyNodeTypes::<T, C, S, PL>::spec_new(),
    {
        AnyNodeTypes::new()
    }

    /// The same types with other rules.
    pub fn chain_spec<T>(self) -> (made: AnyNodeTypes<P, T, S, PL>)
        ensures
            made == AnyNodeTypes::<P, T, S, PL>::spec_new(),
    {
        AnyNodeTypes::new()
    }

    /// The same types with another storage.
    pub fn storage<T>(self) -> (made: AnyNodeTypes<P, C, T, PL>)
        ensures
            made == AnyNodeTypes::<P, C, T, PL>::spec_new(),
    {
        AnyNodeTypes::new()
    }

    /// The same types with another payload.
    pub fn payload<T>(self) -> (made: AnyNodeTypes<P, C, S, T>)
        ensures
            made == AnyNodeTypes::<P, C, S, T>::spec_new(),
    {
        AnyNodeTypes::new()
    }
}

impl<P, C, S, PL> NodeTypes for AnyNodeTypes<P, C, S, PL> {
    type Primitives = P;

    type ChainSpec = C;

    type Storage = S;

    type Payload = PL;
}

/// The types of a node with an engine, chosen one by one.
#[derive(Debug)]
pub struct AnyNodeTypesWithEngine<P, E, C, S, PL> {
    pub base: AnyNodeTypes<P, C, S, PL>,
    pub engine: PhantomData<E>,
}

impl<P, E, C, S, PL> AnyNodeTypesWithEngine<P, E, C, S, PL> {
    /// The only value of these types.
    pub open spec fn spec_new() -> Self {
        AnyNodeTypesWithEngine {
            base: AnyNodeTypes::<P, C, S, PL>::spec_new(),
            engine: PhantomData::<E>,
        }
    }

    /// The only value of these types.
    pub fn new() -> (made: Self)
        ensures
            made == AnyNodeTypesWithEngine::<P, E, C, S, PL>::spec_new(),
    {
        AnyNodeTypesWithEngine { base: AnyNodeTypes::new(), engine: PhantomData }
    }

    /// The same types with other primitives.
    pub fn primitives<T>(self) -> (made: AnyNodeTypesWithEngine<T, E, C, S, PL>)
        ensures
            made == AnyNodeTypesWithEngine::<T, E, C, S, PL>::spec_new(),
    {
        AnyNodeTypesWithEngine::new()
    }

    /// The same types with another engine.
    pub fn engine<T>(self) -> (made: AnyNodeTypesWithEngine<P, T, C, S, PL>)
        ensures
            made == AnyNodeTypesWithEngine::<P, T, C, S, PL>::spec_new(),
    {
        AnyNodeTypesWithEngine::new()
    }

    /// The same types with other rules.
    pub fn chain_spec<T>(self) -> (made: AnyNodeTypesWithEngine<P, E, T, S, PL>)
        ensures
            made == AnyNodeTypesWithEngine::<P, E, T, S, PL>::spec_new(),
    {
        AnyNodeTypesWithEngine::new()
    }

    /// The same types with another storage.
    pub fn storage<T>(self) -> (made: AnyNodeTypesWithEngine<P, E, C, T, PL>)
        ensures
            made == AnyNodeTypesWithEngine::<P, E, C, T, PL>::spec_new(),
    {
        AnyNodeTypesWithEngine::new()
    }

    /// The same types with another payload.
    pub fn payload<T>(self) -> (made: AnyNodeTypesWithEngine<P, E, C, S, T>)
        ensures
            made == AnyNodeTypesWithEngine::<P, E, C, S, T>::spec_new(),
    {
        AnyNodeTypesWithEngine::new()
    }
}

impl<P, E, C, S, PL> NodeTypes for AnyNodeTypesWithEngine<P, E, C, S, PL> {
    type Primitives = P;

    type ChainSpec = C;

    type Storage = S;

    type Payload = PL;
}

} // verus!
