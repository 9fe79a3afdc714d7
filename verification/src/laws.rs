//! The store's global laws, stated over the model the contracts use.
//! What a single operation guarantees stands in its own `ensures`; proved
//! here is what holds across operations.

use vstd::prelude::*;

use crate::digest::md5_hex_of;
use crate::ops::spec_missing_of;
use crate::ops::CommitEntry;
use crate::store::store_has;
use crate::store::MockStoredFile;

verus! {

/// Content addressing is idempotent: the digest a blob is stored under is a
/// function of its bytes alone, so storing equal bytes twice stores them
/// under one and the same key, and a store holding the blob holds it for
/// both writes.
pub proof fn lemma_content_addressing_idempotent(
    files: Seq<MockStoredFile>,
    path: Seq<char>,
    b1: Seq<u8>,
    b2: Seq<u8>,
)
    requires
        b1 == b2,
    ensures
        md5_hex_of(b1) == md5_hex_of(b2),
        store_has(files, path, md5_hex_of(b1)) == store_has(files, path, md5_hex_of(b2)),
{
}

/// Missing-then-retry converges: when the blobs a commit reported missing
/// are all uploaded, and uploads only ever add blobs, resubmitting the
/// identical claimed set reports nothing missing — so the commit succeeds.
pub proof fn lemma_missing_then_retry(
    claimed: Seq<CommitEntry>,
    files0: Seq<MockStoredFile>,
    files1: Seq<MockStoredFile>,
)
    requires
        forall|p: Seq<char>, m: Seq<char>|
            #[trigger] store_has(files0, p, m) ==> store_has(files1, p, m),
        forall|i: int|
            0 <= i < spec_missing_of(claimed, files0).len() ==> store_has(
                files1,
                (#[trigger] spec_missing_of(claimed, files0)[i]).name@,
                spec_missing_of(claimed, files0)[i].md5@,
            ),
    ensures
        spec_missing_of(claimed, files1).len() == 0,
    decreases claimed.len(),
{
    if claimed.len() > 0 {
        let head = claimed.drop_last();
        let last = claimed.last();
        let m0 = spec_missing_of(claimed, files0);
        let mh = spec_missing_of(head, files0);
        assert forall|i: int| 0 <= i < mh.len() implies store_has(
            files1,
            (#[trigger] mh[i]).name@,
            mh[i].md5@,
        ) by {
            assert(m0[i] == mh[i]);
            assert(store_has(files1, m0[i].name@, m0[i].md5@));
        }
        lemma_missing_then_retry(head, files0, files1);
        if store_has(files0, last.name@, last.md5@) {
            assert(store_has(files1, last.name@, last.md5@));
        } else {
            assert(m0 == mh.push(last));
            assert(m0[mh.len() as int] == last);
            assert(store_has(files1, last.name@, last.md5@));
        }
    }
}

} // verus!
