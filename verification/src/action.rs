//! What an instruction asks its surroundings to do.

use crate::address::seeds_view;
use crate::attributes::{AttributeView, Attributes};
use vstd::prelude::*;

verus! {

/// One call to another program, with the seeds in whose name it is signed.
#[derive(Debug, PartialEq, Eq)]
pub enum Action {
    /// Store these attributes on the asset.
    UpdateAssetAttributes { attributes: Attributes, signer: Vec<Vec<u8>> },
    /// Store these attributes on the collection.
    UpdateCollectionAttributes { attributes: Attributes, signer: Vec<Vec<u8>> },
    /// Let the asset be transferred again.
    ThawAsset { signer: Vec<Vec<u8>> },
    /// Mint reward tokens to the owner.
    MintRewards { amount: u64, decimals: u8, signer: Vec<Vec<u8>> },
    /// Nothing is left to do.
    Done,
}

/// What an [`Action`] says.
pub enum ActionView {
    UpdateAssetAttributes { attributes: Seq<AttributeView>, signer: Seq<Seq<u8>> },
    UpdateCollectionAttributes { attributes: Seq<AttributeView>, signer: Seq<Seq<u8>> },
    ThawAsset { signer: Seq<Seq<u8>> },
    MintRewards { amount: u64, decimals: u8, signer: Seq<Seq<u8>> },
    Done,
}

impl View for Action {
    type V = ActionView;

    open spec fn view(&self) -> ActionView {
        match *self {
            Action::UpdateAssetAttributes { attributes, signer } => {
                ActionView::UpdateAssetAttributes {
                    attributes: attributes@,
                    signer: seeds_view(signer@),
                }
            },
            Action::UpdateCollectionAttributes { attributes, signer } => {
                ActionView::UpdateCollectionAttributes {
                    attributes: attributes@,
                    signer: seeds_view(signer@),
                }
            },
            Action::ThawAsset { signer } => ActionView::ThawAsset { signer: seeds_view(signer@) },
            Action::MintRewards { amount, decimals, signer } => ActionView::MintRewards {
                amount,
                decimals,
                signer: seeds_view(signer@),
            },
            Action::Done => ActionView::Done,
        }
    }
}

} // verus!
