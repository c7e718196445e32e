//! The marketplace state machine.
//!
//! A [`Market`] value holds the whole state of one collection: the asset
//! ledger (who owns which asset), the sale registry (which assets are
//! listed at which price), the book of native-currency balances, the
//! collection configuration, the mint counter, the reentrancy flag and the
//! event log.  The platform around the contract is modelled by plain
//! values: the calling account and the payment attached to a call are
//! arguments, and notification records are appended to the log.
//!
//! Each operation's postcondition is a transition relation (`mint_spec`,
//! `list_spec`, ...) that pins down the result and the whole new state for
//! every input, so the properties of the marketplace can be stated and
//! proved as lemmas over these relations.

use crate::bank::Bank;
use crate::bytemap::ByteMap;
use crate::errors::NftError;
use crate::events::Event;
use crate::events::EventView;
use crate::events::log_view;
use vstd::prelude::*;

verus! {

/// Collection-wide configuration, mutable only by the collection owner.
pub struct Config {
    /// The single privileged account for collection-wide settings.
    pub collection_owner: u64,
    /// Upper bound on the number of assets ever minted.
    pub max_supply: u64,
    /// The exact payment that must accompany a mint.
    pub price_per_mint: u128,
    /// Prefix of every asset's metadata URI.
    pub base_uri: Vec<u8>,
}

/// The complete state of one collection's registry and marketplace.
pub struct Market {
    /// Asset ledger: asset identifier to owning account.
    pub ledger: ByteMap<u64>,
    /// Sale registry: asset identifier to listed price.
    pub sales: ByteMap<u128>,
    /// Native-currency balances, credited by successful purchases.
    pub bank: Bank,
    /// Collection configuration.
    pub cfg: Config,
    /// How many assets have been minted so far.
    pub minted: u64,
    /// Whether a guarded operation is currently in flight.
    pub entered: bool,
    /// Notification records produced so far, oldest first.
    pub events: Vec<Event>,
}

/// Copies a byte string.
fn clone_bytes(v: &Vec<u8>) -> (r: Vec<u8>)
    ensures
        r@ == v@,
{
    let mut r: Vec<u8> = Vec::new();
    let n = v.len();
    let mut i: usize = 0;
    while i < n
        invariant
            n == v@.len(),
            i <= n,
            r@ == v@.subrange(0, i as int),
        decreases n - i,
    {
        r.push(v[i]);
        proof {
            assert(r@ =~= v@.subrange(0, i as int + 1));
        }
        i += 1;
    }
    proof {
        assert(r@ =~= v@);
    }
    r
}

impl Market {
    /// Asset identifier to owning account.
    pub open spec fn owners(self) -> Map<Seq<u8>, u64> {
        self.ledger@
    }

    /// Asset identifier to listed sale price.
    pub open spec fn listings(self) -> Map<Seq<u8>, u128> {
        self.sales@
    }

    /// Account to native-currency balance (zero when never credited).
    pub open spec fn balances(self) -> Map<u64, u128> {
        self.bank@
    }

    /// The notification records produced so far, oldest first.
    pub open spec fn log(self) -> Seq<EventView> {
        log_view(self.events@)
    }

    /// Account `a` currently owns the asset `id`.
    pub open spec fn owns(self, a: u64, id: Seq<u8>) -> bool {
        self.owners().contains_key(id) && self.owners()[id] == a
    }

    /// The state invariant: the stores are well formed, every listed asset
    /// exists in the ledger, and the mint counter respects the supply
    /// ceiling.
    pub open spec fn wf(self) -> bool {
        &&& self.ledger.wf()
        &&& self.sales.wf()
        &&& self.bank.wf()
        &&& forall|id: Seq<u8>| #[trigger]
            self.listings().contains_key(id) ==> self.owners().contains_key(id)
        &&& self.minted <= self.cfg.max_supply
    }
}

/// `post` is `pre` with the reentrancy flag set to `flag` and nothing else
/// changed.
pub open spec fn guard_set(pre: Market, post: Market, flag: bool) -> bool {
    &&& post.entered == flag
    &&& post.ledger == pre.ledger
    &&& post.sales == pre.sales
    &&& post.bank == pre.bank
    &&& post.cfg == pre.cfg
    &&& post.minted == pre.minted
    &&& post.events == pre.events
}

/// The outcome that a mint of `fid` to `to` must have on state `pre`.
pub open spec fn mint_result(pre: Market, to: u64, fid: Seq<u8>, attached: u128) -> Result<
    (),
    NftError,
> {
    if pre.entered {
        Err(NftError::ReentrancyDetected)
    } else if pre.owners().contains_key(fid) {
        Err(NftError::DuplicateAsset)
    } else if pre.minted >= pre.cfg.max_supply {
        Err(NftError::CollectionIsFull)
    } else if attached != pre.cfg.price_per_mint {
        Err(NftError::BadMintValue)
    } else {
        Ok(())
    }
}

/// The state change of a successful mint: `to` becomes the sole owner of
/// the fresh asset `fid`, the counter advances, and one transfer record
/// with an absent source is appended.
pub open spec fn mint_ok(pre: Market, to: u64, fid: Seq<u8>, post: Market) -> bool {
    &&& post.ledger@ == pre.ledger@.insert(fid, to)
    &&& post.sales == pre.sales
    &&& post.bank == pre.bank
    &&& post.cfg == pre.cfg
    &&& post.minted == pre.minted + 1
    &&& post.entered == pre.entered
    &&& post.log() == pre.log().push(
        (EventView::Transfer { from: None, to: Some(to), id: fid }),
    )
}

/// The full transition relation of `mint` and `mint_to`.
pub open spec fn mint_spec(
    pre: Market,
    to: u64,
    fid: Seq<u8>,
    attached: u128,
    r: Result<(), NftError>,
    post: Market,
) -> bool {
    &&& r == mint_result(pre, to, fid, attached)
    &&& if r is Ok {
        mint_ok(pre, to, fid, post)
    } else {
        post == pre
    }
}

/// The outcome owed to a caller asking about ownership of `fid`.
pub open spec fn check_owner_result(pre: Market, caller: u64, fid: Seq<u8>) -> Result<
    (),
    NftError,
> {
    if !pre.owners().contains_key(fid) {
        Err(NftError::AssetNotFound)
    } else if pre.owners()[fid] != caller {
        Err(NftError::NotTokenOwner)
    } else {
        Ok(())
    }
}

/// The full transition relation of `list`.
pub open spec fn list_spec(
    pre: Market,
    caller: u64,
    fid: Seq<u8>,
    price: u128,
    r: Result<(), NftError>,
    post: Market,
) -> bool {
    &&& r == check_owner_result(pre, caller, fid)
    &&& if r is Ok {
        &&& post.sales@ == pre.sales@.insert(fid, price)
        &&& post.ledger == pre.ledger
        &&& post.bank == pre.bank
        &&& post.cfg == pre.cfg
        &&& post.minted == pre.minted
        &&& post.entered == pre.entered
        &&& post.events == pre.events
    } else {
        post == pre
    }
}

/// The outcome that a delisting of `fid` must have on state `pre`.
pub open spec fn delist_result(pre: Market, caller: u64, fid: Seq<u8>) -> Result<(), NftError> {
    if !pre.owners().contains_key(fid) {
        Err(NftError::AssetNotFound)
    } else if pre.owners()[fid] != caller {
        Err(NftError::NotTokenOwner)
    } else if !pre.listings().contains_key(fid) {
        Err(NftError::NotForSale)
    } else {
        Ok(())
    }
}

/// The full transition relation of `delist`.
pub open spec fn delist_spec(
    pre: Market,
    caller: u64,
    fid: Seq<u8>,
    r: Result<(), NftError>,
    post: Market,
) -> bool {
    &&& r == delist_result(pre, caller, fid)
    &&& if r is Ok {
        &&& post.sales@ == pre.sales@.remove(fid)
        &&& post.ledger == pre.ledger
        &&& post.bank == pre.bank
        &&& post.cfg == pre.cfg
        &&& post.minted == pre.minted
        &&& post.entered == pre.entered
        &&& post.events == pre.events
    } else {
        post == pre
    }
}

/// The outcome that a purchase of `fid` must have on state `pre`.
pub open spec fn purchase_result(pre: Market, caller: u64, fid: Seq<u8>, attached: u128) -> Result<
    (),
    NftError,
> {
    if !pre.owners().contains_key(fid) {
        Err(NftError::AssetNotFound)
    } else if pre.owners()[fid] == caller {
        Err(NftError::SelfPurchase)
    } else if !pre.listings().contains_key(fid) {
        Err(NftError::NotForSale)
    } else if attached != pre.listings()[fid] {
        Err(NftError::PriceMismatch)
    } else if pre.balances()[pre.owners()[fid]] + attached > u128::MAX {
        Err(NftError::PaymentTransferFailed)
    } else {
        Ok(())
    }
}

/// The state change of a successful purchase: the seller is paid the
/// listed price, the listing disappears, the buyer becomes the owner, and
/// one transfer record and one trade record are appended, in that order.
pub open spec fn purchase_ok(
    pre: Market,
    caller: u64,
    fid: Seq<u8>,
    attached: u128,
    post: Market,
) -> bool {
    let seller = pre.owners()[fid];
    &&& post.ledger@ == pre.ledger@.insert(fid, caller)
    &&& post.sales@ == pre.sales@.remove(fid)
    &&& post.bank@ == pre.bank@.insert(seller, (pre.bank@[seller] + attached) as u128)
    &&& post.cfg == pre.cfg
    &&& post.minted == pre.minted
    &&& post.entered == pre.entered
    &&& post.log() == pre.log() + seq![
        (EventView::Transfer { from: Some(seller), to: Some(caller), id: fid }),
        (EventView::Trade { seller: seller, buyer: caller, id: fid, price: attached }),
    ]
}

/// The full transition relation of `purchase`.
pub open spec fn purchase_spec(
    pre: Market,
    caller: u64,
    fid: Seq<u8>,
    attached: u128,
    r: Result<(), NftError>,
    post: Market,
) -> bool {
    &&& r == purchase_result(pre, caller, fid, attached)
    &&& if r is Ok {
        purchase_ok(pre, caller, fid, attached, post)
    } else {
        post == pre
    }
}

impl Market {
    /// A fresh collection: no assets, no listings, all balances zero, an
    /// empty event log, and the guard released.
    pub fn new(collection_owner: u64, max_supply: u64, price_per_mint: u128, base_uri: Vec<u8>) -> (
        r: Market
    )
        ensures
            r.wf(),
            r.owners() == Map::<Seq<u8>, u64>::empty(),
            r.listings() == Map::<Seq<u8>, u128>::empty(),
            forall|a: u64| r.balances()[a] == 0u128,
            r.cfg.collection_owner == collection_owner,
            r.cfg.max_supply == max_supply,
            r.cfg.price_per_mint == price_per_mint,
            r.cfg.base_uri@ == base_uri@,
            r.minted == 0,
            r.entered == false,
            r.log() == Seq::<EventView>::empty(),
    {
        let r = Market {
            ledger: ByteMap::new(),
            sales: ByteMap::new(),
            bank: Bank::new(),
            cfg: Config { collection_owner, max_supply, price_per_mint, base_uri },
            minted: 0,
            entered: false,
            events: Vec::new(),
        };
        proof {
            assert(r.log() =~= Seq::<EventView>::empty());
        }
        r
    }

    /// Marks the guarded operation set as in flight; refused when it
    /// already is.
    pub fn guard_acquire(&mut self) -> (r: Result<(), NftError>)
        ensures
            old(self).entered ==> r == Err::<(), NftError>(NftError::ReentrancyDetected)
                && *final(self) == *old(self),
            !old(self).entered ==> r == Ok::<(), NftError>(()) && guard_set(
                *old(self),
                *final(self),
                true,
            ),
    {
        if self.entered {
            Err(NftError::ReentrancyDetected)
        } else {
            self.entered = true;
            Ok(())
        }
    }

    /// Releases the reentrancy guard; taken on every exit path of a
    /// guarded operation.
    pub fn guard_release(&mut self)
        ensures
            guard_set(*old(self), *final(self), false),
    {
        self.entered = false;
    }

    /// Validates an external identifier.  The format/registry check is a
    /// pluggable collaborator; this validator accepts every identifier.
    pub fn check_fid(&self, _fid: &Vec<u8>) -> (r: Result<(), NftError>)
        ensures
            r == Ok::<(), NftError>(()),
    {
        Ok(())
    }

    /// Whether the attached payment equals the per-mint price.
    pub fn check_value(&self, attached: u128) -> (r: Result<(), NftError>)
        ensures
            r == if attached == self.cfg.price_per_mint {
                Ok::<(), NftError>(())
            } else {
                Err::<(), NftError>(NftError::BadMintValue)
            },
    {
        if attached == self.cfg.price_per_mint {
            Ok(())
        } else {
            Err(NftError::BadMintValue)
        }
    }

    /// Whether the asset `fid` exists in the ledger.
    pub fn token_exists(&self, fid: &Vec<u8>) -> (r: Result<(), NftError>)
        requires
            self.wf(),
        ensures
            r == if self.owners().contains_key(fid@) {
                Ok::<(), NftError>(())
            } else {
                Err::<(), NftError>(NftError::AssetNotFound)
            },
    {
        if self.ledger.contains(fid) {
            Ok(())
        } else {
            Err(NftError::AssetNotFound)
        }
    }

    /// Whether `caller` owns the asset `fid`.
    pub fn check_owner(&self, caller: u64, fid: &Vec<u8>) -> (r: Result<(), NftError>)
        requires
            self.wf(),
        ensures
            r == check_owner_result(*self, caller, fid@),
    {
        match self.ledger.get(fid) {
            None => Err(NftError::AssetNotFound),
            Some(owner) => {
                if owner != caller {
                    Err(NftError::NotTokenOwner)
                } else {
                    Ok(())
                }
            },
        }
    }

    /// Mints the asset `fid` to the caller.  The attached payment must
    /// equal the per-mint price; the operation is reentrancy-gated.
    pub fn mint(&mut self, caller: u64, fid: Vec<u8>, attached: u128) -> (r: Result<(), NftError>)
        requires
            old(self).wf(),
        ensures
            final(self).wf(),
            mint_spec(*old(self), caller, fid@, attached, r, *final(self)),
    {
        self.mint_to(caller, fid, attached)
    }

    /// Mints the asset `fid` to `to`.  Any caller may invoke it: the
    /// privileged variant carries no owner gate.  The attached payment
    /// must equal the per-mint price; the operation is reentrancy-gated.
    pub fn mint_to(&mut self, to: u64, fid: Vec<u8>, attached: u128) -> (r: Result<
        (),
        NftError,
    >)
        requires
            old(self).wf(),
        ensures
            final(self).wf(),
            mint_spec(*old(self), to, fid@, attached, r, *final(self)),
    {
        let ghost fidv = fid@;
        match self.guard_acquire() {
            Err(e) => {
                return Err(e);
            },
            Ok(()) => {},
        }
        match self.check_fid(&fid) {
            Err(e) => {
                self.guard_release();
                return Err(e);
            },
            Ok(()) => {},
        }
        if self.ledger.contains(&fid) {
            self.guard_release();
            return Err(NftError::DuplicateAsset);
        }
        if self.minted >= self.cfg.max_supply {
            self.guard_release();
            return Err(NftError::CollectionIsFull);
        }
        match self.check_value(attached) {
            Err(e) => {
                self.guard_release();
                return Err(e);
            },
            Ok(()) => {},
        }
        let id_for_event = clone_bytes(&fid);
        self.ledger.insert(fid, to);
        self.minted = self.minted + 1;
        self.events.push(Event::Transfer { from: None, to: Some(to), id: id_for_event });
        self.guard_release();
        proof {
            assert(log_view(self.events@) =~= log_view(old(self).events@).push(
                (EventView::Transfer { from: None, to: Some(to), id: fidv }),
            ));
            assert forall|id: Seq<u8>| #[trigger]
                self.listings().contains_key(id) implies self.owners().contains_key(id) by {
                assert(old(self).listings().contains_key(id));
            }
        }
        Ok(())
    }

    /// Replaces the collection's base URI; only the collection owner may.
    pub fn set_base_uri(&mut self, caller: u64, uri: Vec<u8>) -> (r: Result<(), NftError>)
        requires
            old(self).wf(),
        ensures
            final(self).wf(),
            caller != old(self).cfg.collection_owner ==> r == Err::<(), NftError>(
                NftError::NotAuthorized,
            ) && *final(self) == *old(self),
            caller == old(self).cfg.collection_owner ==> {
                &&& r == Ok::<(), NftError>(())
                &&& final(self).cfg.base_uri@ == uri@
                &&& final(self).cfg.collection_owner == old(self).cfg.collection_owner
                &&& final(self).cfg.max_supply == old(self).cfg.max_supply
                &&& final(self).cfg.price_per_mint == old(self).cfg.price_per_mint
                &&& final(self).ledger == old(self).ledger
                &&& final(self).sales == old(self).sales
                &&& final(self).bank == old(self).bank
                &&& final(self).minted == old(self).minted
                &&& final(self).entered == old(self).entered
                &&& final(self).events == old(self).events
            },
    {
        if caller != self.cfg.collection_owner {
            return Err(NftError::NotAuthorized);
        }
        self.cfg.base_uri = uri;
        proof {
            assert forall|id: Seq<u8>| #[trigger]
                self.listings().contains_key(id) implies self.owners().contains_key(id) by {
                assert(old(self).listings().contains_key(id));
            }
        }
        Ok(())
    }

    /// The metadata URI of the asset `fid`: the base URI followed by the
    /// identifier itself.
    pub fn token_uri(&self, fid: &Vec<u8>) -> (r: Result<Vec<u8>, NftError>)
        requires
            self.wf(),
        ensures
            self.owners().contains_key(fid@) ==> (r matches Ok(u) && u@ == self.cfg.base_uri@
                + fid@),
            !self.owners().contains_key(fid@) ==> r == Err::<Vec<u8>, NftError>(
                NftError::AssetNotFound,
            ),
    {
        match self.token_exists(fid) {
            Err(e) => Err(e),
            Ok(()) => {
                let mut out = clone_bytes(&self.cfg.base_uri);
                let n = fid.len();
                let mut i: usize = 0;
                proof {
                    assert(out@ =~= self.cfg.base_uri@ + fid@.subrange(0, 0));
                }
                while i < n
                    invariant
                        n == fid@.len(),
                        i <= n,
                        out@ == self.cfg.base_uri@ + fid@.subrange(0, i as int),
                    decreases n - i,
                {
                    out.push(fid[i]);
                    proof {
                        assert(out@ =~= self.cfg.base_uri@ + fid@.subrange(0, i as int + 1));
                    }
                    i += 1;
                }
                proof {
                    assert(fid@.subrange(0, n as int) =~= fid@);
                }
                Ok(out)
            },
        }
    }

    /// The fixed price charged at mint time.
    pub fn price(&self) -> (r: u128)
        ensures
            r == self.cfg.price_per_mint,
    {
        self.cfg.price_per_mint
    }

    /// The supply ceiling.
    pub fn max_supply(&self) -> (r: u64)
        ensures
            r == self.cfg.max_supply,
    {
        self.cfg.max_supply
    }

    /// Replaces the supply ceiling; only the collection owner may, and
    /// never below the number of assets already minted.
    pub fn set_max_supply(&mut self, caller: u64, value: u64) -> (r: Result<(), NftError>)
        requires
            old(self).wf(),
        ensures
            final(self).wf(),
            caller != old(self).cfg.collection_owner ==> r == Err::<(), NftError>(
                NftError::NotAuthorized,
            ) && *final(self) == *old(self),
            caller == old(self).cfg.collection_owner && value < old(self).minted ==> r == Err::<
                (),
                NftError,
            >(NftError::CollectionIsFull) && *final(self) == *old(self),
            caller == old(self).cfg.collection_owner && value >= old(self).minted ==> {
                &&& r == Ok::<(), NftError>(())
                &&& final(self).cfg.max_supply == value
                &&& final(self).cfg.collection_owner == old(self).cfg.collection_owner
                &&& final(self).cfg.price_per_mint == old(self).cfg.price_per_mint
                &&& final(self).cfg.base_uri == old(self).cfg.base_uri
                &&& final(self).ledger == old(self).ledger
                &&& final(self).sales == old(self).sales
                &&& final(self).bank == old(self).bank
                &&& final(self).minted == old(self).minted
                &&& final(self).entered == old(self).entered
                &&& final(self).events == old(self).events
            },
    {
        if caller != self.cfg.collection_owner {
            return Err(NftError::NotAuthorized);
        }
        if value < self.minted {
            return Err(NftError::CollectionIsFull);
        }
        self.cfg.max_supply = value;
        proof {
            assert forall|id: Seq<u8>| #[trigger]
                self.listings().contains_key(id) implies self.owners().contains_key(id) by {
                assert(old(self).listings().contains_key(id));
            }
        }
        Ok(())
    }

    /// Lists the asset `fid` for sale at `price`, overwriting any earlier
    /// listing; only the asset's owner may.
    pub fn list(&mut self, caller: u64, fid: Vec<u8>, price: u128) -> (r: Result<(), NftError>)
        requires
            old(self).wf(),
        ensures
            final(self).wf(),
            list_spec(*old(self), caller, fid@, price, r, *final(self)),
    {
        match self.check_owner(caller, &fid) {
            Err(e) => Err(e),
            Ok(()) => {
                self.sales.insert(fid, price);
                proof {
                    assert forall|id: Seq<u8>| #[trigger]
                        self.listings().contains_key(id) implies self.owners().contains_key(
                        id,
                    ) by {
                        if id != fid@ {
                            assert(old(self).listings().contains_key(id));
                        }
                    }
                }
                Ok(())
            },
        }
    }

    /// Withdraws the asset `fid` from sale; only the asset's owner may,
    /// and only while it is listed.
    pub fn delist(&mut self, caller: u64, fid: Vec<u8>) -> (r: Result<(), NftError>)
        requires
            old(self).wf(),
        ensures
            final(self).wf(),
            delist_spec(*old(self), caller, fid@, r, *final(self)),
    {
        match self.check_owner(caller, &fid) {
            Err(e) => Err(e),
            Ok(()) => {
                match self.sales.remove(&fid) {
                    None => Err(NftError::NotForSale),
                    Some(_) => {
                        proof {
                            assert forall|id: Seq<u8>| #[trigger]
                                self.listings().contains_key(id) implies self.owners().contains_key(
                                id,
                            ) by {
                                assert(old(self).listings().contains_key(id));
                            }
                        }
                        Ok(())
                    },
                }
            },
        }
    }

    /// Buys the listed asset `fid`: the attached payment must equal the
    /// listed price exactly; the seller is paid first, then the listing is
    /// removed and ownership moves to the caller, as one atomic step.
    pub fn purchase(&mut self, caller: u64, fid: Vec<u8>, attached: u128) -> (r: Result<
        (),
        NftError,
    >)
        requires
            old(self).wf(),
        ensures
            final(self).wf(),
            purchase_spec(*old(self), caller, fid@, attached, r, *final(self)),
    {
        let ghost fidv = fid@;
        let owner = match self.ledger.get(&fid) {
            None => {
                return Err(NftError::AssetNotFound);
            },
            Some(o) => o,
        };
        if owner == caller {
            return Err(NftError::SelfPurchase);
        }
        let price = match self.sales.get(&fid) {
            None => {
                return Err(NftError::NotForSale);
            },
            Some(p) => p,
        };
        if attached != price {
            return Err(NftError::PriceMismatch);
        }
        if !self.bank.credit(owner, attached) {
            return Err(NftError::PaymentTransferFailed);
        }
        self.sales.remove(&fid);
        let id_for_transfer = clone_bytes(&fid);
        let id_for_trade = clone_bytes(&fid);
        self.ledger.insert(fid, caller);
        self.events.push(Event::Transfer { from: Some(owner), to: Some(caller), id: id_for_transfer });
        self.events.push(Event::Trade { seller: owner, buyer: caller, id: id_for_trade, price: attached });
        proof {
            assert(log_view(self.events@) =~= log_view(old(self).events@) + seq![
                (EventView::Transfer { from: Some(owner), to: Some(caller), id: fidv }),
                (EventView::Trade { seller: owner, buyer: caller, id: fidv, price: attached }),
            ]);
            assert forall|id: Seq<u8>| #[trigger]
                self.listings().contains_key(id) implies self.owners().contains_key(id) by {
                assert(old(self).listings().contains_key(id));
            }
        }
        Ok(())
    }

    /// The owner of the asset `fid`, if it has been minted.
    pub fn owner_of(&self, fid: &Vec<u8>) -> (r: Option<u64>)
        requires
            self.wf(),
        ensures
            r == if self.owners().contains_key(fid@) {
                Some(self.owners()[fid@])
            } else {
                None::<u64>
            },
    {
        self.ledger.get(fid)
    }

    /// The listed price of the asset `fid`, if it is for sale.
    pub fn price_of(&self, fid: &Vec<u8>) -> (r: Option<u128>)
        requires
            self.wf(),
        ensures
            r == if self.listings().contains_key(fid@) {
                Some(self.listings()[fid@])
            } else {
                None::<u128>
            },
    {
        self.sales.get(fid)
    }

    /// Whether account `a`'s holdings include the asset `fid`.
    pub fn holds(&self, a: u64, fid: &Vec<u8>) -> (r: bool)
        requires
            self.wf(),
        ensures
            r == self.owns(a, fid@),
    {
        match self.ledger.get(fid) {
            Some(o) => o == a,
            None => false,
        }
    }

    /// The native-currency balance held by account `a`.
    pub fn funds_of(&self, a: u64) -> (r: u128)
        requires
            self.wf(),
        ensures
            r == self.balances()[a],
    {
        self.bank.balance_of(a)
    }

    /// The number of assets minted so far.
    pub fn total_minted(&self) -> (r: u64)
        ensures
            r == self.minted,
    {
        self.minted
    }

    /// The collection's base URI.
    pub fn base_uri(&self) -> (r: &Vec<u8>)
        ensures
            r@ == self.cfg.base_uri@,
    {
        &self.cfg.base_uri
    }

    /// How many notification records have been produced.
    pub fn events_len(&self) -> (r: usize)
        ensures
            r == self.log().len(),
    {
        self.events.len()
    }

    /// The `i`-th notification record, oldest first.
    pub fn event_at(&self, i: usize) -> (r: &Event)
        requires
            i < self.log().len(),
        ensures
            r@ == self.log()[i as int],
    {
        &self.events[i]
    }
}

} // verus!
