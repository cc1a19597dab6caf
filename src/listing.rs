//! Listings: items with a fixed ask price, owned by one identity, bought once.
use vstd::prelude::*;
use crate::error::MarketplaceError;
use crate::market::Marketplace;

verus! {

/// Longest description a listing can hold, in bytes of UTF-8.
pub const MAX_DESCRIPTION_BYTES: usize = 100;

/// A verified public identity: the 32 bytes of an account key.
#[derive(Clone, Copy, PartialEq, Eq, Debug)]
pub struct Identity {
    pub bytes: [u8; 32],
}

/// An item offered for sale.
#[derive(Debug)]
pub struct Product {
    /// Current holder.
    pub owner: Identity,
    /// Ask price, fixed when listed.
    pub price: u64,
    /// Human-readable text, at most `MAX_DESCRIPTION_BYTES` bytes.
    pub description: String,
    /// Whether the item has been bought.
    pub is_sold: bool,
}

/// The records that `list_product` fills in: the new listing and its owner.
pub struct ListProduct {
    pub product: Product,
    pub owner: Identity,
}

/// The records that a purchase changes: the listing, its buyer, and the
/// marketplace whose sold count it advances.
pub struct BuyProduct {
    pub product: Product,
    pub buyer: Identity,
    pub marketplace: Marketplace,
}

/// Length in bytes of a description.
pub open spec fn description_bytes(description: Seq<char>) -> nat {
    vstd::utf8::encode_utf8(description).len()
}

/// One step of a listing's history: it stays as it was, or, unsold, it
/// becomes sold with its price and description kept.
pub open spec fn sale_step(before: Product, after: Product) -> bool {
    ||| after == before
    ||| {
        &&& !before.is_sold
        &&& after.is_sold
        &&& after.price == before.price
        &&& after.description@ == before.description@
    }
}

/// Fills in a new listing owned by `ctx.owner` at `price`, not sold.
/// A description over `MAX_DESCRIPTION_BYTES` bytes is refused.
pub fn list_product(ctx: &mut ListProduct, price: u64, description: String) -> (r: Result<(), MarketplaceError>)
    ensures
        description_bytes(description@) > MAX_DESCRIPTION_BYTES ==> {
            &&& r == Err::<(), MarketplaceError>(MarketplaceError::DescriptionTooLong)
            &&& final(ctx).product == old(ctx).product
        },
        description_bytes(description@) <= MAX_DESCRIPTION_BYTES ==> {
            &&& r == Ok::<(), MarketplaceError>(())
            &&& final(ctx).product.owner == old(ctx).owner
            &&& final(ctx).product.price == price
            &&& final(ctx).product.description@ == description@
            &&& !final(ctx).product.is_sold
        },
        final(ctx).owner == old(ctx).owner,
{
    if description.as_str().as_bytes().len() > MAX_DESCRIPTION_BYTES {
        return Err(MarketplaceError::DescriptionTooLong);
    }
    let product = &mut ctx.product;
    product.owner = ctx.owner;
    product.price = price;
    product.description = description;
    product.is_sold = false;
    Ok(())
}

/// Sells the listing to `ctx.buyer` and counts the sale on the marketplace.
/// A listing already sold is refused. The sold count stops at `u64::MAX`.
pub fn buy_product(ctx: &mut BuyProduct) -> (r: Result<(), MarketplaceError>)
    ensures
        old(ctx).product.is_sold ==> {
            &&& r == Err::<(), MarketplaceError>(MarketplaceError::AlreadySold)
            &&& final(ctx).product == old(ctx).product
            &&& final(ctx).marketplace == old(ctx).marketplace
        },
        !old(ctx).product.is_sold ==> {
            &&& r == Ok::<(), MarketplaceError>(())
            &&& final(ctx).product.is_sold
            &&& final(ctx).product.owner == old(ctx).buyer
            &&& final(ctx).product.price == old(ctx).product.price
            &&& final(ctx).product.description@ == old(ctx).product.description@
            &&& final(ctx).marketplace == (Marketplace {
                sold_amount: if old(ctx).marketplace.sold_amount < u64::MAX {
                    (old(ctx).marketplace.sold_amount + 1) as u64
                } else {
                    u64::MAX
                },
                ..old(ctx).marketplace
            })
        },
        sale_step(old(ctx).product, final(ctx).product),
        final(ctx).buyer == old(ctx).buyer,
{
    if ctx.product.is_sold {
        return Err(MarketplaceError::AlreadySold);
    }
    ctx.product.is_sold = true;
    ctx.product.owner = ctx.buyer;
    if ctx.marketplace.sold_amount < u64::MAX {
        ctx.marketplace.sold_amount = ctx.marketplace.sold_amount + 1;
    }
    Ok(())
}

/// Over any history of a listing in which each state follows from the one
/// before by `sale_step` (which every `buy_product` call takes), once sold a
/// listing stays sold, and its owner changes only at the step where it
/// becomes sold.
pub proof fn lemma_sale_is_final(history: Seq<Product>)
    requires
        forall|k: int| 0 <= k < history.len() - 1 ==> sale_step(#[trigger] history[k], history[k + 1]),
    ensures
        forall|i: int, j: int|
            0 <= i <= j < history.len() && (#[trigger] history[i]).is_sold ==> (#[trigger] history[j]).is_sold,
        forall|k: int|
            0 <= k < history.len() - 1 && (#[trigger] history[k]).owner != history[k + 1].owner
                ==> !history[k].is_sold && history[k + 1].is_sold,
{
    assert forall|i: int, j: int|
        0 <= i <= j < history.len() && (#[trigger] history[i]).is_sold implies (#[trigger] history[j]).is_sold by {
        lemma_sold_persists(history, i, j);
    }
    assert forall|k: int|
        0 <= k < history.len() - 1 && (#[trigger] history[k]).owner != history[k + 1].owner
            implies !history[k].is_sold && history[k + 1].is_sold by {
        assert(sale_step(history[k], history[k + 1]));
    }
}

proof fn lemma_sold_persists(history: Seq<Product>, i: int, j: int)
    requires
        forall|k: int| 0 <= k < history.len() - 1 ==> sale_step(#[trigger] history[k], history[k + 1]),
        0 <= i <= j < history.len(),
        history[i].is_sold,
    ensures
        history[j].is_sold,
    decreases j - i,
{
    if i < j {
        assert(sale_step(history[i], history[i + 1]));
        lemma_sold_persists(history, i + 1, j);
    }
}

} // verus!
