use vstd::prelude::*;

verus! {

/// The number of a block.
pub type BlockNumber = u32;

/// The identity of an account that signs transactions.
pub type AccountId = u64;

/// The runtime's constants for this pallet.
#[derive(Clone, Copy, Debug, PartialEq, Eq)]
pub struct Config {
    /// Number of blocks of cooldown after an unsigned transaction is included:
    /// unsigned transactions are accepted once every `unsigned_interval` blocks.
    pub unsigned_interval: BlockNumber,
    /// Base priority of unsigned transactions.
    pub unsigned_priority: u64,
    /// Maximum number of prices kept for the average.
    pub max_prices: u32,
    /// Maximum length of the HTTP endpoint.
    pub max_endpoint_length: u32,
}

/// Who dispatches a call: the root (sudo), a signed account, nobody (an
/// unsigned transaction), or nobody with the runtime's authorization.
#[derive(Clone, Copy, Debug, PartialEq, Eq)]
pub enum Origin {
    Root,
    Signed(AccountId),
    Unsigned,
    Authorized,
}

/// The errors of this pallet.
#[derive(Clone, Copy, Debug, PartialEq, Eq)]
pub enum Error {
    /// HTTP endpoint is too long.
    TooLongHttpEndpoint,
}

/// Why a dispatched call failed.
#[derive(Clone, Copy, Debug, PartialEq, Eq)]
pub enum DispatchError {
    /// The origin is not the one the call needs.
    BadOrigin,
    /// An error of this pallet.
    Module(Error),
}

/// Events of this pallet.
#[derive(Clone, Debug)]
pub enum Event {
    /// A new price was accepted to contribute to the average.
    NewPrice { price: u32, average: u32, maybe_who: Option<AccountId> },
    /// A new HTTP endpoint was set.
    NewHttpEndpoint { endpoint: Vec<u8> },
}

/// The model of an [`Event`].
pub enum EventView {
    NewPrice { price: u32, average: u32, maybe_who: Option<AccountId> },
    NewHttpEndpoint { endpoint: Seq<u8> },
}

impl View for Event {
    type V = EventView;

    open spec fn view(&self) -> EventView {
        match self {
            Event::NewPrice { price, average, maybe_who } => EventView::NewPrice {
                price: *price,
                average: *average,
                maybe_who: *maybe_who,
            },
            Event::NewHttpEndpoint { endpoint } => EventView::NewHttpEndpoint {
                endpoint: endpoint@,
            },
        }
    }
}

/// The calls of this pallet.
#[derive(Clone, Debug)]
pub enum Call {
    /// `set_endpoint`: a new HTTP endpoint, from the root.
    SetEndpoint { new_endpoint: Vec<u8> },
    /// `submit_price`: a new price, from the root.
    SubmitPrice { price: u32 },
    /// `submit_price_unsigned`: a new price fetched at `block_number`, in an
    /// unsigned transaction.
    SubmitPriceUnsigned { block_number: BlockNumber, price: u32 },
}

/// The model of the pallet's storage, with the block number and the events
/// that the system keeps for it.
pub struct PalletState {
    pub config: Config,
    /// Recently submitted prices, at most `config.max_prices` of them.
    pub prices: Seq<u32>,
    /// Last submitted price.
    pub price: u32,
    /// The block from which the next unsigned transaction is accepted.
    pub next_unsigned_at: BlockNumber,
    /// The HTTP endpoint to fetch the price from; empty for the default.
    pub http_endpoint: Seq<u8>,
    /// The current block.
    pub block_number: BlockNumber,
    /// The events deposited so far, oldest first.
    pub events: Seq<EventView>,
}

/// The sum of `prices`.
pub open spec fn sum_of(prices: Seq<u32>) -> int
    decreases prices.len(),
{
    if prices.len() == 0 {
        0
    } else {
        sum_of(prices.drop_last()) + prices.last()
    }
}

/// The average of `prices`: their sum divided by their number, rounded down;
/// `None` for no prices.
pub open spec fn average_of(prices: Seq<u32>) -> Option<u32> {
    if prices.len() == 0 {
        None
    } else {
        Some((sum_of(prices) / (prices.len() as int)) as u32)
    }
}

/// The prices after `price` is added to a buffer of at most `max` prices:
/// appended while there is room, else appended in place of the oldest, so
/// that the buffer holds the last `max` prices, oldest first.
pub open spec fn prices_after_add(prices: Seq<u32>, max: u32, price: u32) -> Seq<u32> {
    if prices.len() < max {
        prices.push(price)
    } else {
        prices.drop_first().push(price)
    }
}

/// Prices that are all at most `bound` sum to at most their number times
/// `bound`, and sum to no less than zero.
pub proof fn lemma_sum_bounded(prices: Seq<u32>, bound: int)
    requires
        forall|i: int| 0 <= i < prices.len() ==> prices[i] <= bound,
    ensures
        0 <= sum_of(prices) <= prices.len() * bound,
    decreases prices.len(),
{
    if prices.len() > 0 {
        let rest = prices.drop_last();
        lemma_sum_bounded(rest, bound);
        let n = rest.len() as int;
        assert(n * bound + bound == (n + 1) * bound) by (nonlinear_arith);
    }
}

impl PalletState {
    /// The storage bounds hold.
    pub open spec fn wf(self) -> bool {
        &&& self.prices.len() <= self.config.max_prices
        &&& self.http_endpoint.len() <= self.config.max_endpoint_length
    }

    /// The state after `price` is added to the average on behalf of `who`.
    pub open spec fn after_add_price(self, who: Option<AccountId>, price: u32) -> PalletState {
        let prices = prices_after_add(self.prices, self.config.max_prices, price);
        PalletState {
            prices,
            price,
            events: self.events.push(
                EventView::NewPrice { price, average: average_of(prices).unwrap(), maybe_who: who },
            ),
            ..self
        }
    }

    /// The outcome of `set_endpoint`: its result and the state after it.
    pub open spec fn set_endpoint_outcome(self, origin: Origin, endpoint: Seq<u8>) -> (
        Result<(), DispatchError>,
        PalletState,
    ) {
        if !(origin is Root) {
            (Err(DispatchError::BadOrigin), self)
        } else if endpoint.len() > self.config.max_endpoint_length {
            (Err(DispatchError::Module(Error::TooLongHttpEndpoint)), self)
        } else {
            (
                Ok(()),
                PalletState {
                    http_endpoint: endpoint,
                    events: self.events.push(EventView::NewHttpEndpoint { endpoint }),
                    ..self
                },
            )
        }
    }

    /// The outcome of `submit_price`.
    pub open spec fn submit_price_outcome(self, origin: Origin, price: u32) -> (
        Result<(), DispatchError>,
        PalletState,
    ) {
        if !(origin is Root) {
            (Err(DispatchError::BadOrigin), self)
        } else {
            (Ok(()), self.after_add_price(None, price))
        }
    }

    /// The outcome of `submit_price_unsigned` for a transaction made at block
    /// `block_number`, which it does not read.
    pub open spec fn submit_price_unsigned_outcome(
        self,
        origin: Origin,
        block_number: BlockNumber,
        price: u32,
    ) -> (
        Result<(), DispatchError>,
        PalletState,
    ) {
        if !(origin is Unsigned) {
            (Err(DispatchError::BadOrigin), self)
        } else {
            let added = self.after_add_price(None, price);
            (
                Ok(()),
                PalletState {
                    next_unsigned_at: (self.block_number + self.config.unsigned_interval) as u32,
                    ..added
                },
            )
        }
    }
}

/// The pallet: its configuration, storage and events.
pub struct Pallet {
    config: Config,
    /// The prices, bounded by `config.max_prices` through the type
    /// invariant. A `BoundedVec` carries its bound as a type parameter
    /// `S: Get<u32>`, and the names this crate gives to what outside code
    /// holds take no type parameters, so a `BoundedVec`'s contents could be
    /// described only for one bound fixed at compile time.
    prices: Vec<u32>,
    price: u32,
    next_unsigned_at: BlockNumber,
    http_endpoint: Vec<u8>,
    block_number: BlockNumber,
    events: Vec<Event>,
}

impl View for Pallet {
    type V = PalletState;

    closed spec fn view(&self) -> PalletState {
        PalletState {
            config: self.config,
            prices: self.prices@,
            price: self.price,
            next_unsigned_at: self.next_unsigned_at,
            http_endpoint: self.http_endpoint@,
            block_number: self.block_number,
            events: self.events@.map_values(|e: Event| e@),
        }
    }
}

impl Pallet {
    /// The storage bounds hold in every pallet.
    #[verifier::type_invariant]
    spec fn storage_bounds_hold(&self) -> bool {
        self@.wf()
    }

    /// The pallet at genesis: every storage value at its default, at block 0.
    pub fn new(config: Config) -> (p: Pallet)
        ensures
            p@ == (PalletState {
                config,
                prices: Seq::empty(),
                price: 0,
                next_unsigned_at: 0,
                http_endpoint: Seq::empty(),
                block_number: 0,
                events: Seq::empty(),
            }),
            p@.wf(),
    {
        let p = Pallet {
            config,
            prices: Vec::new(),
            price: 0,
            next_unsigned_at: 0,
            http_endpoint: Vec::new(),
            block_number: 0,
            events: Vec::new(),
        };
        assert(p@.events =~= Seq::empty());
        p
    }

    /// Calculates the current average price: `None` when no price is stored.
    pub fn average_price(&self) -> (r: Option<u32>)
        ensures
            r == average_of(self@.prices),
    {
        proof {
            use_type_invariant(self);
        }
        let n = self.prices.len();
        if n == 0 {
            return None;
        }
        let mut sum: u64 = 0;
        let mut i: usize = 0;
        while i < n
            invariant
                n == self.prices@.len(),
                n <= u32::MAX,
                i <= n,
                sum == sum_of(self.prices@.subrange(0, i as int)),
                sum <= i * 0xffff_ffffint,
            decreases n - i,
        {
            proof {
                assert(self.prices@.subrange(0, i + 1).drop_last() =~= self.prices@.subrange(
                    0,
                    i as int,
                ));
                assert(i * 0xffff_ffffint + 0xffff_ffff == (i + 1) * 0xffff_ffffint)
                    by (nonlinear_arith);
                assert((i + 1) * 0xffff_ffffint <= 0xffff_ffff * 0xffff_ffffint) by (nonlinear_arith)
                    requires
                        i + 1 <= 0xffff_ffff,
                ;
            }
            sum = sum + self.prices[i] as u64;
            i = i + 1;
        }
        proof {
            assert(self.prices@.subrange(0, n as int) =~= self.prices@);
            let s = sum as int;
            let m = n as int;
            assert(s / m <= 0xffff_ffff) by (nonlinear_arith)
                requires
                    s <= m * 0xffff_ffffint,
                    m > 0,
                    s >= 0,
            ;
        }
        Some((sum / (n as u64)) as u32)
    }

    /// Adds a new price to the list and deposits a `NewPrice` event with the
    /// new average.
    pub fn add_price(&mut self, maybe_who: Option<AccountId>, price: u32)
        requires
            old(self)@.config.max_prices > 0,
        ensures
            final(self)@ == old(self)@.after_add_price(maybe_who, price),
    {
        proof {
            use_type_invariant(&*self);
        }
        let max = self.config.max_prices;
        let mut prices: Vec<u32> = Vec::new();
        std::mem::swap(&mut prices, &mut self.prices);
        if prices.len() < max as usize {
            prices.push(price);
        } else {
            let ghost before = prices@;
            prices.remove(0);
            assert(prices@ =~= before.drop_first());
            prices.push(price);
        }
        self.prices = prices;
        let average = self.average_price().unwrap();
        self.price = price;
        self.deposit_event(Event::NewPrice { price, average, maybe_who });
    }

    /// Deposits `event` after the events so far.
    fn deposit_event(&mut self, event: Event)
        ensures
            final(self)@ == (PalletState { events: old(self)@.events.push(event@), ..old(self)@ }),
    {
        proof {
            use_type_invariant(&*self);
        }
        let mut events: Vec<Event> = Vec::new();
        std::mem::swap(&mut events, &mut self.events);
        let ghost old_events = events@;
        let ghost event_view = event@;
        events.push(event);
        proof {
            assert(events@.map_values(|e: Event| e@) =~= old_events.map_values(|e: Event| e@).push(
                event_view,
            ));
        }
        self.events = events;
    }

    /// Submits a new HTTP endpoint to fetch the price from; the call must come
    /// from the root.
    pub fn set_endpoint(&mut self, origin: Origin, new_endpoint: Vec<u8>) -> (r: Result<
        (),
        DispatchError,
    >)
        ensures
            (r, final(self)@) == old(self)@.set_endpoint_outcome(origin, new_endpoint@),
    {
        proof {
            use_type_invariant(&*self);
        }
        match origin {
            Origin::Root => {},
            _ => {
                return Err(DispatchError::BadOrigin);
            },
        }
        if new_endpoint.len() > self.config.max_endpoint_length as usize {
            return Err(DispatchError::Module(Error::TooLongHttpEndpoint));
        }
        let stored = new_endpoint.clone();
        proof {
            assert(stored@ =~= new_endpoint@);
        }
        self.http_endpoint = stored;
        self.deposit_event(Event::NewHttpEndpoint { endpoint: new_endpoint });
        Ok(())
    }

    /// Submits a new price to the list; the call must come from the root.
    pub fn submit_price(&mut self, origin: Origin, price: u32) -> (r: Result<(), DispatchError>)
        requires
            origin is Root ==> old(self)@.config.max_prices > 0,
        ensures
            (r, final(self)@) == old(self)@.submit_price_outcome(origin, price),
    {
        proof {
            use_type_invariant(&*self);
        }
        match origin {
            Origin::Root => {},
            _ => {
                return Err(DispatchError::BadOrigin);
            },
        }
        self.add_price(None, price);
        Ok(())
    }

    /// Submits a new price through an unsigned transaction, and sets the block
    /// from which the next one is accepted to the current block plus the
    /// unsigned interval. `_block_number` is the block the transaction was
    /// made for; validation reads it, this call does not.
    pub fn submit_price_unsigned(
        &mut self,
        origin: Origin,
        _block_number: BlockNumber,
        price: u32,
    ) -> (r: Result<(), DispatchError>)
        requires
            origin is Unsigned ==> old(self)@.config.max_prices > 0,
            origin is Unsigned ==> old(self)@.block_number + old(self)@.config.unsigned_interval
                <= u32::MAX,
        ensures
            (r, final(self)@) == old(self)@.submit_price_unsigned_outcome(
                origin,
                _block_number,
                price,
            ),
    {
        proof {
            use_type_invariant(&*self);
        }
        match origin {
            Origin::Unsigned => {},
            _ => {
                return Err(DispatchError::BadOrigin);
            },
        }
        self.add_price(None, price);
        self.next_unsigned_at = self.block_number + self.config.unsigned_interval;
        Ok(())
    }

    /// The runtime's constants for this pallet.
    pub fn config(&self) -> (r: Config)
        ensures
            r == self@.config,
    {
        self.config
    }

    /// The recently submitted prices.
    pub fn prices(&self) -> (r: &Vec<u32>)
        ensures
            r@ == self@.prices,
    {
        &self.prices
    }

    /// The last submitted price.
    pub fn price(&self) -> (r: u32)
        ensures
            r == self@.price,
    {
        self.price
    }

    /// The block from which the next unsigned transaction is accepted.
    pub fn next_unsigned_at(&self) -> (r: BlockNumber)
        ensures
            r == self@.next_unsigned_at,
    {
        self.next_unsigned_at
    }

    /// The HTTP endpoint set by the root; empty until one is set.
    pub fn http_endpoint(&self) -> (r: &Vec<u8>)
        ensures
            r@ == self@.http_endpoint,
    {
        &self.http_endpoint
    }

    /// The current block.
    pub fn block_number(&self) -> (r: BlockNumber)
        ensures
            r == self@.block_number,
    {
        self.block_number
    }

    /// The events deposited so far, oldest first.
    pub fn events(&self) -> (r: &Vec<Event>)
        ensures
            r@.map_values(|e: Event| e@) == self@.events,
    {
        &self.events
    }

    /// Moves the chain to block `n`; storage is unchanged.
    pub fn set_block_number(&mut self, n: BlockNumber)
        ensures
            final(self)@ == (PalletState { block_number: n, ..old(self)@ }),
    {
        proof {
            use_type_invariant(&*self);
        }
        self.block_number = n;
    }
}

} // verus!
