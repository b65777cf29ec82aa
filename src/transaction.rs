use vstd::prelude::*;
use crate::codec::{is_word, join, lemma_words_are_words, lemma_words_join, words};
use crate::license::{
    LicenseCreation, LicenseTransfer, UnsignedLicenseCreation,
    creation_tag, lemma_transfer_text_first_word, transfer_tag,
};
use crate::serialize::Serializable;

verus! {

/// A signed license creation or a signed license transfer.
pub enum Transaction {
    LicenseCreation(LicenseCreation),
    LicenseTransfer(LicenseTransfer),
}

/// What a transaction holds, as seen by contracts.
pub enum TransactionView {
    Creation(<LicenseCreation as View>::V),
    Transfer(<LicenseTransfer as View>::V),
}

impl View for Transaction {
    type V = TransactionView;

    open spec fn view(&self) -> TransactionView {
        match self {
            Transaction::LicenseCreation(c) => TransactionView::Creation(c@),
            Transaction::LicenseTransfer(t) => TransactionView::Transfer(t@),
        }
    }
}

/// A text whose contract part is not followed by a creation or transfer tag reads as neither
/// a creation nor a transfer, and so as no transaction.
pub proof fn lemma_untagged_text_rejected(s: Seq<char>)
    requires
        words(s).len() < 4 || (words(s)[3] != creation_tag() && words(s)[3] != transfer_tag()),
    ensures
        <LicenseCreation as Serializable>::decoding(s) is None,
        <LicenseTransfer as Serializable>::decoding(s) is None,
        Transaction::decoding(s) is None,
{
    let ws = words(s);
    if ws.len() >= 3 {
        let tail = ws.subrange(3, ws.len() as int);
        lemma_words_are_words(s);
        assert forall|i: int| 0 <= i < tail.len() implies is_word(#[trigger] tail[i]) by {
            assert(tail[i] == ws[i + 3]);
        }
        lemma_words_join(tail);
        if ws.len() > 3 {
            assert(tail[0] == ws[3]);
        }
    }
}

impl Serializable for Transaction {
    open spec fn valid(&self) -> bool {
        match self {
            Transaction::LicenseCreation(c) => c.valid(),
            Transaction::LicenseTransfer(t) => t.valid(),
        }
    }

    open spec fn encoding(v: TransactionView) -> Seq<char> {
        match v {
            TransactionView::Creation(c) => <LicenseCreation as Serializable>::encoding(c),
            TransactionView::Transfer(t) => <LicenseTransfer as Serializable>::encoding(t),
        }
    }

    /// A creation if the text reads as one, else a transfer if it reads as one.
    open spec fn decoding(s: Seq<char>) -> Option<TransactionView> {
        match <LicenseCreation as Serializable>::decoding(s) {
            Some(c) => Some(TransactionView::Creation(c)),
            None => match <LicenseTransfer as Serializable>::decoding(s) {
                Some(t) => Some(TransactionView::Transfer(t)),
                None => None,
            },
        }
    }

    fn serialize(&self) -> (r: String) {
        match self {
            Transaction::LicenseCreation(c) => c.text(),
            Transaction::LicenseTransfer(t) => {
                let r = t.text();
                proof {
                    if self.valid() {
                        let ws = words(r@);
                        lemma_words_are_words(r@);
                        lemma_words_join(ws);
                        let rest = join(ws.subrange(3, ws.len() as int));
                        lemma_transfer_text_first_word(t.content@);
                        assert(words(rest)[0] != creation_tag()) by {
                            assert(transfer_tag()[0] != creation_tag()[0]);
                        }
                        assert(UnsignedLicenseCreation::decoding(rest) is None);
                        assert(<LicenseCreation as Serializable>::decoding(r@) is None);
                        assert(words(join(ws)) == ws);
                    }
                }
                r
            },
        }
    }

    fn deserialize(input: String) -> (r: Option<Transaction>) {
        match LicenseCreation::deserialize(input.clone()) {
            Some(c) => Some(Transaction::LicenseCreation(c)),
            None => match LicenseTransfer::deserialize(input) {
                Some(t) => Some(Transaction::LicenseTransfer(t)),
                None => None,
            },
        }
    }
}

} // verus!
