use crate::error::Error;
use crate::hash::{blake2_of, blake2sum, hex_of, BlockHash};
use crate::layout::{block_file_name, tmp_file_name, tmp_suffix};
use vstd::prelude::*;

verus! {

/// A block and its hash, as sent between nodes.
#[derive(Debug)]
pub struct PutBlockMessage {
    /// Hash of the block.
    pub hash: BlockHash,
    /// Contents of the block.
    pub data: Vec<u8>,
}

/// Messages of the peer protocol.
#[derive(Debug)]
pub enum BlockRpc {
    /// Acknowledgement.
    Ack,
    /// Ask for a block, by hash.
    GetBlock(BlockHash),
    /// Send a block, in answer to `GetBlock` or as a first delivery.
    PutBlock(PutBlockMessage),
    /// Ask whether a node needs a block that it does not hold.
    NeedBlockQuery(BlockHash),
    /// Answer to `NeedBlockQuery`.
    NeedBlockReply(bool),
}

/// What this node sees of one block: whether its file is present and whether
/// its reference count is above zero.
#[derive(Debug, Clone, Copy, PartialEq, Eq, Structural)]
pub struct BlockStatus {
    pub exists: bool,
    pub needed: bool,
}

/// The status of a block from file presence and reference count.
pub fn block_status(exists: bool, rc: u64) -> (r: BlockStatus)
    ensures
        r.exists == exists,
        r.needed == (rc > 0),
{
    BlockStatus { exists, needed: rc > 0 }
}

/// Whether this node should hold a block that it lacks: the answer to a
/// `NeedBlockQuery`.
pub fn need_block(st: &BlockStatus) -> (r: bool)
    ensures
        r == (st.needed && !st.exists),
{
    st.needed && !st.exists
}

/// Outcome of reading a block's file and checking it.
#[derive(Debug)]
pub enum ReadCheck {
    /// No file: a resync is to be queued at once.
    Missing,
    /// The contents do not hash to the name: the file is to be quarantined
    /// and a resync queued at once.
    Corrupt,
    /// The contents, checked.
    Valid(Vec<u8>),
}

/// The outcome of reading a block whose file holds `contents` (`None`: no
/// file).
pub open spec fn read_check_of(h: Seq<u8>, contents: Option<Seq<u8>>) -> ReadCheckModel {
    match contents {
        None => ReadCheckModel::Missing,
        Some(b) => if blake2_of(b) == h {
            ReadCheckModel::Valid(b)
        } else {
            ReadCheckModel::Corrupt
        },
    }
}

/// Mathematical counterpart of `ReadCheck`.
pub enum ReadCheckModel {
    Missing,
    Corrupt,
    Valid(Seq<u8>),
}

impl View for ReadCheck {
    type V = ReadCheckModel;

    open spec fn view(&self) -> ReadCheckModel {
        match self {
            ReadCheck::Missing => ReadCheckModel::Missing,
            ReadCheck::Corrupt => ReadCheckModel::Corrupt,
            ReadCheck::Valid(b) => ReadCheckModel::Valid(b@),
        }
    }
}

/// Checks what was read from a block's file against the block's hash.
pub fn check_block(h: &BlockHash, contents: Option<Vec<u8>>) -> (r: ReadCheck)
    ensures
        r@ == read_check_of(
            h@,
            match contents {
                None => None,
                Some(b) => Some(b@),
            },
        ),
{
    match contents {
        None => ReadCheck::Missing,
        Some(data) => {
            let d = blake2sum(data.as_slice());
            if d.same_as(h) {
                ReadCheck::Valid(data)
            } else {
                ReadCheck::Corrupt
            }
        },
    }
}

/// The answer to a read of block `h`: the block itself, `NotFound` or
/// `CorruptData`.
pub fn read_reply(h: &BlockHash, check: ReadCheck) -> (r: Result<BlockRpc, Error>)
    ensures
        check is Missing ==> r matches Err(Error::NotFound),
        check is Corrupt ==> (r matches Err(Error::CorruptData(g)) && g@ == h@),
        check matches ReadCheck::Valid(b) ==> (r matches Ok(BlockRpc::PutBlock(m)) && m.hash@
            == h@ && m.data@ == b@),
{
    match check {
        ReadCheck::Missing => Err(Error::NotFound),
        ReadCheck::Corrupt => Err(Error::CorruptData(h.copy())),
        ReadCheck::Valid(data) => Ok(BlockRpc::PutBlock(PutBlockMessage { hash: h.copy(), data })),
    }
}

/// What a read leaves behind besides its answer.
#[derive(Debug, Clone, Copy, PartialEq, Eq, Structural)]
pub struct ReadFollowUp {
    /// Move the file aside under its quarantine name.
    pub quarantine: bool,
    /// Queue a resync of the block, due at once.
    pub resync_now: bool,
}

/// The follow-up of a read: a missing file queues a resync at once, since
/// the block may be expected here; a corrupt file is quarantined and queues
/// a resync at once, so that the block is repaired from peers.
pub fn read_follow_up(check: &ReadCheck) -> (r: ReadFollowUp)
    ensures
        r.quarantine == (check is Corrupt),
        r.resync_now == !(check is Valid),
{
    match check {
        ReadCheck::Missing => ReadFollowUp { quarantine: false, resync_now: true },
        ReadCheck::Corrupt => ReadFollowUp { quarantine: true, resync_now: true },
        ReadCheck::Valid(_) => ReadFollowUp { quarantine: false, resync_now: false },
    }
}

/// How a block is written to disk, given whether its final file exists.
#[derive(Debug)]
pub enum WritePlan {
    /// The file is there already: content addressing makes the write a no-op.
    AlreadyStored,
    /// Write the bytes to `tmp` (in the block's directory), flush, then
    /// rename it to `dst`.
    WriteThenRename { tmp: String, dst: String },
}

/// The plan for writing block `h`: nothing where its file exists, else a
/// write to the temporary name followed by a rename to the final name, so
/// that no reader sees a partly written final file.
pub fn write_plan(h: &BlockHash, final_exists: bool) -> (r: WritePlan)
    ensures
        final_exists <==> r is AlreadyStored,
        r matches WritePlan::WriteThenRename { tmp, dst } ==> tmp@ == hex_of(h@) + tmp_suffix()
            && dst@ == hex_of(h@),
{
    if final_exists {
        WritePlan::AlreadyStored
    } else {
        WritePlan::WriteThenRename { tmp: tmp_file_name(h), dst: block_file_name(h) }
    }
}

/// Canonical block files of a node, by hash.
pub type Disk = Map<Seq<u8>, Seq<u8>>;

/// The canonical files after writing `b` under `h`: unchanged where a file
/// for `h` exists.
pub open spec fn disk_after_write(d: Disk, h: Seq<u8>, b: Seq<u8>) -> Disk {
    if d.contains_key(h) {
        d
    } else {
        d.insert(h, b)
    }
}

/// The outcome of reading `h` from the canonical files `d`.
pub open spec fn disk_read(d: Disk, h: Seq<u8>) -> ReadCheckModel {
    read_check_of(h, if d.contains_key(h) { Some(d[h]) } else { None })
}

/// The canonical files after a read of `h`: a corrupt file is moved aside.
pub open spec fn disk_after_read(d: Disk, h: Seq<u8>) -> Disk {
    if disk_read(d, h) is Corrupt {
        d.remove(h)
    } else {
        d
    }
}

/// Writing a block and reading it back returns the block exactly when it
/// hashes to its name; otherwise the read reports corruption and the file
/// leaves its canonical name.
pub proof fn lemma_write_then_read(d: Disk, h: Seq<u8>, b: Seq<u8>)
    requires
        !d.contains_key(h),
    ensures
        disk_read(disk_after_write(d, h, b), h) == (if blake2_of(b) == h {
            ReadCheckModel::Valid(b)
        } else {
            ReadCheckModel::Corrupt
        }),
        blake2_of(b) != h ==> !disk_after_read(disk_after_write(d, h, b), h).contains_key(h),
{
}

/// Writing the same block twice leaves one canonical file, as the first
/// write left it.
pub proof fn lemma_write_idempotent(d: Disk, h: Seq<u8>, b: Seq<u8>)
    ensures
        disk_after_write(disk_after_write(d, h, b), h, b) == disk_after_write(d, h, b),
        disk_after_write(d, h, b).contains_key(h),
        disk_after_write(d, h, b).dom() == d.dom().insert(h),
{
}

/// What a node does with an incoming message.
#[derive(Debug)]
pub enum Handler {
    /// Store the block.
    Write(PutBlockMessage),
    /// Read the block and answer with it.
    Read(BlockHash),
    /// Answer whether the block is needed here and missing.
    NeedQuery(BlockHash),
}

/// Dispatches an incoming request: `PutBlock`, `GetBlock` and
/// `NeedBlockQuery` have a handler; `Ok` and `NeedBlockReply` are answers,
/// not requests, and give `BadRpc`.
pub fn route(message: BlockRpc) -> (r: Result<Handler, Error>)
    ensures
        message matches BlockRpc::PutBlock(m) ==> (r matches Ok(Handler::Write(n)) && n.hash@
            == m.hash@ && n.data@ == m.data@),
        message matches BlockRpc::GetBlock(h) ==> (r matches Ok(Handler::Read(g)) && g@ == h@),
        message matches BlockRpc::NeedBlockQuery(h) ==> (r matches Ok(Handler::NeedQuery(g))
            && g@ == h@),
        (message is Ack || message is NeedBlockReply) ==> r matches Err(Error::BadRpc(_)),
{
    match message {
        BlockRpc::PutBlock(m) => Ok(Handler::Write(m)),
        BlockRpc::GetBlock(h) => Ok(Handler::Read(h)),
        BlockRpc::NeedBlockQuery(h) => Ok(Handler::NeedQuery(h)),
        _ => Err(Error::BadRpc("Unexpected RPC message".to_string())),
    }
}

/// The block of the first `PutBlock` in a sequence of responses.
pub open spec fn first_put_data(s: Seq<BlockRpc>) -> Option<Seq<u8>>
    decreases s.len(),
{
    if s.len() == 0 {
        None
    } else if let BlockRpc::PutBlock(m) = s[0] {
        Some(m.data@)
    } else {
        first_put_data(s.drop_first())
    }
}

/// The block of the first `PutBlock` among the responses to a `GetBlock`;
/// `None` where there is none.
pub fn first_put_block(resps: &Vec<BlockRpc>) -> (r: Option<Vec<u8>>)
    ensures
        match r {
            None => first_put_data(resps@) is None,
            Some(data) => first_put_data(resps@) == Some(data@),
        },
{
    let mut i: usize = 0;
    assert(resps@.subrange(0, resps@.len() as int) =~= resps@);
    while i < resps.len()
        invariant
            i <= resps@.len(),
            first_put_data(resps@) == first_put_data(resps@.subrange(i as int, resps@.len() as int)),
        decreases resps@.len() - i,
    {
        let ghost rest = resps@.subrange(i as int, resps@.len() as int);
        assert(rest[0] == resps@[i as int]);
        if let BlockRpc::PutBlock(msg) = &resps[i] {
            return Some(msg.data.clone());
        }
        assert(rest.drop_first() =~= resps@.subrange(i + 1, resps@.len() as int));
        i = i + 1;
    }
    None
}

} // verus!
