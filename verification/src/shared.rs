//! The fixed-layout record that the background refresher publishes in
//! shared memory, and its conversion to and from the cache data.

use vstd::prelude::*;
use vstd::utf8::*;
use vstd::string::*;
use crate::text::{decode_utf8_lossy, trim_end_nul, trim_trailing_nul, lossy_text};
use crate::types::{CacheData, CacheDataView, QuotaItem, QuotaItemView, VcsInfo, VcsInfoView};

verus! {

/// Text decoded from a NUL-padded byte field: the bytes are decoded as
/// UTF-8 (invalid sequences become U+FFFD) and the trailing NULs dropped.
pub open spec fn field_text(bytes: Seq<u8>) -> Seq<char> {
    trim_trailing_nul(lossy_text(bytes))
}

/// Decodes a NUL-padded byte field into a string.
pub fn bytes_to_str(bytes: &[u8]) -> (res: String)
    ensures
        res@ == field_text(bytes@),
{
    let decoded = decode_utf8_lossy(bytes);
    trim_end_nul(decoded.as_str())
}

/// The `N` bytes that `str_to_bytes` writes for a string whose UTF-8
/// encoding is `bytes`: its first `N` bytes, padded with zeros.
pub open spec fn padded_field(bytes: Seq<u8>, n: nat) -> Seq<u8> {
    Seq::new(n, |i: int| if i < bytes.len() { bytes[i] } else { 0u8 })
}

/// Copies the UTF-8 bytes of `s` into a zero-filled array of `N` bytes,
/// cutting off what does not fit.
pub fn str_to_bytes<const N: usize>(s: &str) -> (res: [u8; N])
    ensures
        res@ == padded_field(s.spec_bytes(), N as nat),
{
    let mut bytes = [0u8; N];
    let s_bytes = s.as_bytes();
    let len = if s_bytes.len() < N { s_bytes.len() } else { N };
    let mut i: usize = 0;
    while i < len
        invariant
            i <= len,
            len <= N,
            len <= s_bytes@.len(),
            len == s_bytes@.len() || len == N,
            s_bytes@ == s.spec_bytes(),
            bytes@.len() == N,
            forall|j: int| 0 <= j < i ==> bytes@[j] == s_bytes@[j],
            forall|j: int| i <= j < N ==> bytes@[j] == 0u8,
        decreases len - i,
    {
        bytes[i] = s_bytes[i];
        i = i + 1;
    }
    assert(bytes@ =~= padded_field(s.spec_bytes(), N as nat));
    bytes
}


/// Marks a record written by this program.
pub const SHARED_MAGIC: u32 = 0x41475953;

/// Layout version of the shared record.
pub const SHARED_VERSION: u32 = 6;

/// Number of quota slots in the shared record.
pub const SHARED_QUOTA_SLOTS: usize = 16;

/// One quota slot. `remaining_fraction_bits` is the bit pattern of the
/// `f64` fraction.
#[derive(Clone, Copy)]
pub struct SharedQuotaItem {
    pub id: [u8; 64],
    pub display_name: [u8; 64],
    pub remaining_fraction_bits: u64,
    pub reset_time: [u8; 64],
}

/// The git-status part of the shared record.
#[derive(Clone, Copy)]
pub struct SharedVcsInfo {
    pub cwd: [u8; 260],
    pub branch: [u8; 64],
    pub dirty: u8,
    pub ahead: u32,
    pub behind: u32,
    pub modified: u32,
    pub last_checked: u64,
    pub head_mtime: u64,
    pub index_mtime: u64,
    pub remote_web_url: [u8; 256],
    pub insertions: u32,
    pub deletions: u32,
}

/// The shared record. `seq` is the sequence counter of the writer
/// (odd while a write is in progress).
#[derive(Clone, Copy)]
pub struct SharedCacheData {
    pub magic: u32,
    pub version: u32,
    pub seq: u32,
    pub last_refreshed: u64,
    pub quota_count: u32,
    pub quotas: [SharedQuotaItem; 16],
    pub has_vcs: u8,
    pub vcs: SharedVcsInfo,
    pub needs_login: u8,
}

/// A field decoded as text, where empty text means absent.
pub open spec fn optional_field_text(bytes: Seq<u8>) -> Option<Seq<char>> {
    let t = field_text(bytes);
    if t.len() == 0 {
        None
    } else {
        Some(t)
    }
}

/// A number where zero means absent.
pub open spec fn optional_nonzero(v: u64) -> Option<u64> {
    if v == 0 {
        None
    } else {
        Some(v)
    }
}

/// The login state that a stored code stands for: 1 needs login,
/// 2 is logged in, anything else is unknown.
pub open spec fn login_state(code: u8) -> Option<bool> {
    if code == 1 {
        Some(true)
    } else if code == 2 {
        Some(false)
    } else {
        None
    }
}

/// The code stored for a login state.
pub open spec fn login_code(state: Option<bool>) -> u8 {
    match state {
        Some(true) => 1,
        Some(false) => 2,
        None => 0,
    }
}

/// The bytes stored for a text in a field of `n` bytes.
pub open spec fn text_field(s: Seq<char>, n: nat) -> Seq<u8> {
    padded_field(encode_utf8(s), n)
}

/// The bytes stored for an optional text: absent text is all zeros.
pub open spec fn optional_text_field(s: Option<Seq<char>>, n: nat) -> Seq<u8> {
    match s {
        Some(t) => text_field(t, n),
        None => padded_field(Seq::empty(), n),
    }
}

/// The number of quota slots in use for a count.
pub open spec fn used_slots(count: int) -> int {
    if count < 16 {
        count
    } else {
        16
    }
}

impl SharedQuotaItem {
    /// The quota item that this slot stores.
    pub open spec fn decoded(self) -> QuotaItemView {
        QuotaItemView {
            id: field_text(self.id@),
            display_name: field_text(self.display_name@),
            remaining_fraction_bits: self.remaining_fraction_bits,
            reset_time: optional_field_text(self.reset_time@),
        }
    }

    /// This slot stores `q`.
    pub open spec fn encodes(self, q: QuotaItemView) -> bool {
        &&& self.id@ == text_field(q.id, 64)
        &&& self.display_name@ == text_field(q.display_name, 64)
        &&& self.remaining_fraction_bits == q.remaining_fraction_bits
        &&& self.reset_time@ == optional_text_field(q.reset_time, 64)
    }

    /// This slot is all zeros.
    pub open spec fn is_blank(self) -> bool {
        &&& self.id@ == padded_field(Seq::empty(), 64)
        &&& self.display_name@ == padded_field(Seq::empty(), 64)
        &&& self.remaining_fraction_bits == 0
        &&& self.reset_time@ == padded_field(Seq::empty(), 64)
    }

    /// Reads the quota item stored in this slot.
    pub fn to_quota_item(&self) -> (res: QuotaItem)
        ensures
            res@ == self.decoded(),
    {
        let rt = bytes_to_str(&self.reset_time);
        let reset_time = if rt.as_str().is_empty() {
            None
        } else {
            Some(rt)
        };
        QuotaItem {
            id: bytes_to_str(&self.id),
            display_name: bytes_to_str(&self.display_name),
            remaining_fraction_bits: self.remaining_fraction_bits,
            reset_time,
        }
    }
}


impl SharedQuotaItem {
    /// An all-zero slot.
    pub fn blank() -> (res: SharedQuotaItem)
        ensures
            res.is_blank(),
    {
        let res = SharedQuotaItem {
            id: [0u8; 64],
            display_name: [0u8; 64],
            remaining_fraction_bits: 0,
            reset_time: [0u8; 64],
        };
        assert(res.id@ =~= padded_field(Seq::empty(), 64));
        assert(res.display_name@ =~= padded_field(Seq::empty(), 64));
        assert(res.reset_time@ =~= padded_field(Seq::empty(), 64));
        res
    }

    /// The slot that stores `q`.
    pub fn from_quota_item(q: &QuotaItem) -> (res: SharedQuotaItem)
        ensures
            res.encodes(q@),
    {
        let reset_time: [u8; 64] = match &q.reset_time {
            Some(r) => str_to_bytes(r.as_str()),
            None => {
                let z = [0u8; 64];
                assert(z@ =~= padded_field(Seq::empty(), 64));
                z
            },
        };
        SharedQuotaItem {
            id: str_to_bytes(q.id.as_str()),
            display_name: str_to_bytes(q.display_name.as_str()),
            remaining_fraction_bits: q.remaining_fraction_bits,
            reset_time,
        }
    }
}

impl SharedVcsInfo {
    /// The git status that this record stores.
    pub open spec fn decoded(self) -> VcsInfoView {
        VcsInfoView {
            cwd: field_text(self.cwd@),
            branch: field_text(self.branch@),
            dirty: self.dirty != 0,
            ahead: self.ahead,
            behind: self.behind,
            modified: self.modified,
            last_checked: self.last_checked,
            head_mtime: optional_nonzero(self.head_mtime),
            index_mtime: optional_nonzero(self.index_mtime),
            remote_web_url: optional_field_text(self.remote_web_url@),
            insertions: self.insertions,
            deletions: self.deletions,
        }
    }

    /// This record stores `v`.
    pub open spec fn encodes(self, v: VcsInfoView) -> bool {
        &&& self.cwd@ == text_field(v.cwd, 260)
        &&& self.branch@ == text_field(v.branch, 64)
        &&& self.dirty == (if v.dirty { 1u8 } else { 0u8 })
        &&& self.ahead == v.ahead
        &&& self.behind == v.behind
        &&& self.modified == v.modified
        &&& self.last_checked == v.last_checked
        &&& self.head_mtime == (match v.head_mtime { Some(t) => t, None => 0 })
        &&& self.index_mtime == (match v.index_mtime { Some(t) => t, None => 0 })
        &&& self.remote_web_url@ == optional_text_field(v.remote_web_url, 256)
        &&& self.insertions == v.insertions
        &&& self.deletions == v.deletions
    }

    /// This record is all zeros.
    pub open spec fn is_blank(self) -> bool {
        &&& self.cwd@ == padded_field(Seq::empty(), 260)
        &&& self.branch@ == padded_field(Seq::empty(), 64)
        &&& self.dirty == 0
        &&& self.ahead == 0
        &&& self.behind == 0
        &&& self.modified == 0
        &&& self.last_checked == 0
        &&& self.head_mtime == 0
        &&& self.index_mtime == 0
        &&& self.remote_web_url@ == padded_field(Seq::empty(), 256)
        &&& self.insertions == 0
        &&& self.deletions == 0
    }

    /// An all-zero record.
    pub fn blank() -> (res: SharedVcsInfo)
        ensures
            res.is_blank(),
    {
        let res = SharedVcsInfo {
            cwd: [0u8; 260],
            branch: [0u8; 64],
            dirty: 0,
            ahead: 0,
            behind: 0,
            modified: 0,
            last_checked: 0,
            head_mtime: 0,
            index_mtime: 0,
            remote_web_url: [0u8; 256],
            insertions: 0,
            deletions: 0,
        };
        assert(res.cwd@ =~= padded_field(Seq::empty(), 260));
        assert(res.branch@ =~= padded_field(Seq::empty(), 64));
        assert(res.remote_web_url@ =~= padded_field(Seq::empty(), 256));
        res
    }

    /// Reads the git status stored in this record.
    pub fn to_vcs_info(&self) -> (res: VcsInfo)
        ensures
            res@ == self.decoded(),
    {
        let url = bytes_to_str(&self.remote_web_url);
        let remote_web_url = if url.as_str().is_empty() {
            None
        } else {
            Some(url)
        };
        VcsInfo {
            cwd: bytes_to_str(&self.cwd),
            branch: bytes_to_str(&self.branch),
            dirty: self.dirty != 0,
            ahead: self.ahead,
            behind: self.behind,
            modified: self.modified,
            last_checked: self.last_checked,
            head_mtime: if self.head_mtime == 0 {
                None
            } else {
                Some(self.head_mtime)
            },
            index_mtime: if self.index_mtime == 0 {
                None
            } else {
                Some(self.index_mtime)
            },
            remote_web_url,
            insertions: self.insertions,
            deletions: self.deletions,
        }
    }

    /// The record that stores `v`.
    pub fn from_vcs_info(v: &VcsInfo) -> (res: SharedVcsInfo)
        ensures
            res.encodes(v@),
    {
        let remote_web_url: [u8; 256] = match &v.remote_web_url {
            Some(u) => str_to_bytes(u.as_str()),
            None => {
                let z = [0u8; 256];
                assert(z@ =~= padded_field(Seq::empty(), 256));
                z
            },
        };
        SharedVcsInfo {
            cwd: str_to_bytes(v.cwd.as_str()),
            branch: str_to_bytes(v.branch.as_str()),
            dirty: if v.dirty {
                1
            } else {
                0
            },
            ahead: v.ahead,
            behind: v.behind,
            modified: v.modified,
            last_checked: v.last_checked,
            head_mtime: match v.head_mtime {
                Some(t) => t,
                None => 0,
            },
            index_mtime: match v.index_mtime {
                Some(t) => t,
                None => 0,
            },
            remote_web_url,
            insertions: v.insertions,
            deletions: v.deletions,
        }
    }
}


impl SharedCacheData {
    /// The cache data that this record stores. The token hash is not
    /// stored, so it reads back as absent.
    pub open spec fn decoded(self) -> CacheDataView {
        CacheDataView {
            quota: Seq::new(
                used_slots(self.quota_count as int) as nat,
                |i: int| self.quotas@[i].decoded(),
            ),
            vcs: if self.has_vcs != 0 {
                Some(self.vcs.decoded())
            } else {
                None
            },
            last_refreshed: self.last_refreshed,
            token_hash: None,
            needs_login: login_state(self.needs_login),
        }
    }

    /// This record stores `d` (with the header of the current layout and
    /// a zero sequence counter), and every unused slot is blank.
    pub open spec fn encodes(self, d: CacheDataView) -> bool {
        &&& self.magic == SHARED_MAGIC
        &&& self.version == SHARED_VERSION
        &&& self.seq == 0
        &&& self.last_refreshed == d.last_refreshed
        &&& self.quota_count == used_slots(d.quota.len() as int)
        &&& forall|i: int|
            0 <= i < 16 ==> if i < d.quota.len() {
                #[trigger] self.quotas@[i].encodes(d.quota[i])
            } else {
                self.quotas@[i].is_blank()
            }
        &&& match d.vcs {
            Some(v) => self.has_vcs == 1 && self.vcs.encodes(v),
            None => self.has_vcs == 0 && self.vcs.is_blank(),
        }
        &&& self.needs_login == login_code(d.needs_login)
    }

    /// Reads the cache data stored in this record: at most 16 quota items
    /// (as many as `quota_count` says), the git status when `has_vcs` is
    /// set, and the login state.
    pub fn to_cache_data(&self) -> (res: CacheData)
        ensures
            res@ == self.decoded(),
    {
        let count: usize = if self.quota_count < 16 {
            self.quota_count as usize
        } else {
            16
        };
        let mut quota: Vec<QuotaItem> = Vec::new();
        let mut i: usize = 0;
        while i < count
            invariant
                i <= count,
                count == used_slots(self.quota_count as int),
                quota@.len() == i,
                forall|j: int| 0 <= j < i ==> #[trigger] quota@[j]@ == self.quotas@[j].decoded(),
            decreases count - i,
        {
            let item = self.quotas[i].to_quota_item();
            quota.push(item);
            i = i + 1;
        }
        let vcs = if self.has_vcs != 0 {
            Some(self.vcs.to_vcs_info())
        } else {
            None
        };
        let needs_login = if self.needs_login == 1 {
            Some(true)
        } else if self.needs_login == 2 {
            Some(false)
        } else {
            None
        };
        let res = CacheData { quota, vcs, last_refreshed: self.last_refreshed, token_hash: None, needs_login };
        assert(res@.quota =~= self.decoded().quota);
        res
    }

    /// Builds the record for `data`: the first 16 quota items, the git
    /// status, the login state, the current header and a zero sequence
    /// counter.
    pub fn from_cache_data(data: &CacheData) -> (res: SharedCacheData)
        ensures
            res.encodes(data@),
    {
        let blank = SharedQuotaItem::blank();
        let mut quotas = [blank; 16];
        let quota_count: usize = if data.quota.len() < 16 {
            data.quota.len()
        } else {
            16
        };
        let mut i: usize = 0;
        while i < quota_count
            invariant
                i <= quota_count,
                quota_count == used_slots(data.quota@.len() as int),
                quota_count <= data.quota@.len(),
                blank.is_blank(),
                quotas@.len() == 16,
                forall|j: int| 0 <= j < i ==> #[trigger] quotas@[j].encodes(data.quota@[j]@),
                forall|j: int| i <= j < 16 ==> #[trigger] quotas@[j] == blank,
            decreases quota_count - i,
        {
            quotas[i] = SharedQuotaItem::from_quota_item(&data.quota[i]);
            i = i + 1;
        }
        let (has_vcs, vcs) = match &data.vcs {
            Some(v) => (1u8, SharedVcsInfo::from_vcs_info(v)),
            None => (0u8, SharedVcsInfo::blank()),
        };
        let needs_login: u8 = match data.needs_login {
            Some(true) => 1,
            Some(false) => 2,
            None => 0,
        };
        let res = SharedCacheData {
            magic: SHARED_MAGIC,
            version: SHARED_VERSION,
            seq: 0,
            last_refreshed: data.last_refreshed,
            quota_count: quota_count as u32,
            quotas,
            has_vcs,
            vcs,
            needs_login,
        };
        assert forall|j: int| 0 <= j < 16 implies if j < data@.quota.len() {
            #[trigger] res.quotas@[j].encodes(data@.quota[j])
        } else {
            res.quotas@[j].is_blank()
        } by {
            if j < data@.quota.len() {
                assert(data@.quota[j] == data.quota@[j]@);
            }
        }
        res
    }
}


/// A text that survives storage in a field of `n` bytes: its UTF-8
/// encoding fits and it does not end with a NUL character.
pub open spec fn fits_field(s: Seq<char>, n: nat) -> bool {
    &&& encode_utf8(s).len() <= n
    &&& !(s.len() > 0 && s.last() == '\0')
}

/// An optional text that survives storage: present text is not empty.
pub open spec fn fits_optional_field(s: Option<Seq<char>>, n: nat) -> bool {
    match s {
        Some(t) => t.len() > 0 && fits_field(t, n),
        None => true,
    }
}

/// A quota item that survives storage in a slot.
pub open spec fn quota_item_fits(q: QuotaItemView) -> bool {
    &&& fits_field(q.id, 64)
    &&& fits_field(q.display_name, 64)
    &&& fits_optional_field(q.reset_time, 64)
}

/// A git status that survives storage.
pub open spec fn vcs_info_fits(v: VcsInfoView) -> bool {
    &&& fits_field(v.cwd, 260)
    &&& fits_field(v.branch, 64)
    &&& v.head_mtime != Some(0u64)
    &&& v.index_mtime != Some(0u64)
    &&& fits_optional_field(v.remote_web_url, 256)
}

/// Cache data that survives storage: at most 16 quota items, each of
/// which fits, and a git status that fits.
pub open spec fn cache_data_fits(d: CacheDataView) -> bool {
    &&& d.quota.len() <= 16
    &&& forall|i: int| 0 <= i < d.quota.len() ==> quota_item_fits(#[trigger] d.quota[i])
    &&& match d.vcs {
        Some(v) => vcs_info_fits(v),
        None => true,
    }
}

/// `k` NUL characters.
pub open spec fn nuls(k: nat) -> Seq<char> {
    Seq::new(k, |i: int| '\0')
}

proof fn lemma_encode_utf8_concat(a: Seq<char>, b: Seq<char>)
    ensures
        encode_utf8(a + b) == encode_utf8(a) + encode_utf8(b),
    decreases a.len(),
{
    if a.len() == 0 {
        assert(a + b =~= b);
        assert(encode_utf8(a) =~= Seq::<u8>::empty());
        assert(encode_utf8(a) + encode_utf8(b) =~= encode_utf8(b));
    } else {
        lemma_encode_utf8_concat(a.drop_first(), b);
        assert((a + b).drop_first() =~= a.drop_first() + b);
        assert((a + b)[0] == a[0]);
        assert(encode_utf8(a + b) =~= encode_scalar(a[0] as u32) + encode_utf8(a.drop_first() + b));
        assert(encode_utf8(a) + encode_utf8(b) =~= encode_scalar(a[0] as u32) + (encode_utf8(
            a.drop_first(),
        ) + encode_utf8(b)));
    }
}

proof fn lemma_encode_nuls(k: nat)
    ensures
        encode_utf8(nuls(k)) == Seq::new(k, |i: int| 0u8),
    decreases k,
{
    if k > 0 {
        lemma_encode_nuls((k - 1) as nat);
        assert(nuls(k).drop_first() =~= nuls((k - 1) as nat));
        assert(('\0' as u32) == 0u32);
        assert(leading_byte_width_1(0u32) == 0u8) by (bit_vector);
        assert(encode_scalar(0u32) =~= seq![0u8]);
        assert(encode_utf8(nuls(k)) =~= seq![0u8] + encode_utf8(nuls((k - 1) as nat)));
        assert(Seq::new(k, |i: int| 0u8) =~= seq![0u8] + Seq::new((k - 1) as nat, |i: int| 0u8));
    }
}

proof fn lemma_trim_nuls(s: Seq<char>, k: nat)
    requires
        !(s.len() > 0 && s.last() == '\0'),
    ensures
        trim_trailing_nul(s + nuls(k)) == s,
    decreases k,
{
    if k == 0 {
        assert(s + nuls(0) =~= s);
    } else {
        assert((s + nuls(k)).drop_last() =~= s + nuls((k - 1) as nat));
        assert((s + nuls(k)).last() == '\0');
        lemma_trim_nuls(s, (k - 1) as nat);
    }
}

/// A text that fits a field of `n` bytes reads back unchanged after it is
/// stored there.
pub proof fn lemma_text_field_round_trip(s: Seq<char>, n: nat)
    requires
        fits_field(s, n),
    ensures
        field_text(text_field(s, n)) == s,
{
    let e = encode_utf8(s);
    let k = (n - e.len()) as nat;
    lemma_encode_nuls(k);
    lemma_encode_utf8_concat(s, nuls(k));
    assert(text_field(s, n) =~= encode_utf8(s + nuls(k)));
    encode_utf8_valid_utf8(s + nuls(k));
    encode_utf8_decode_utf8(s + nuls(k));
    lemma_trim_nuls(s, k);
}

/// An optional text that fits reads back unchanged.
pub proof fn lemma_optional_field_round_trip(s: Option<Seq<char>>, n: nat)
    requires
        fits_optional_field(s, n),
    ensures
        optional_field_text(optional_text_field(s, n)) == s,
{
    match s {
        Some(t) => lemma_text_field_round_trip(t, n),
        None => {
            assert(encode_utf8(Seq::<char>::empty()) =~= Seq::<u8>::empty());
            lemma_text_field_round_trip(Seq::<char>::empty(), n);
        },
    }
}

/// Storing cache data in the shared record and reading it back gives the
/// same data, except the token hash, which the record does not keep:
/// provided at most 16 quota items are stored, every text fits its field
/// and does not end in NUL, no optional text is present but empty, and no
/// modification time is present but zero.
pub proof fn lemma_shared_round_trip(rec: SharedCacheData, d: CacheDataView)
    requires
        rec.encodes(d),
        cache_data_fits(d),
    ensures
        rec.decoded() == (CacheDataView { token_hash: None, ..d }),
{
    let e = Seq::<char>::empty();
    assert(encode_utf8(e) =~= Seq::<u8>::empty());
    assert forall|i: int| 0 <= i < d.quota.len() implies #[trigger] rec.quotas@[i].decoded()
        == d.quota[i] by {
        let q = d.quota[i];
        assert(rec.quotas@[i].encodes(q));
        assert(quota_item_fits(q));
        lemma_text_field_round_trip(q.id, 64);
        lemma_text_field_round_trip(q.display_name, 64);
        lemma_optional_field_round_trip(q.reset_time, 64);
    }
    assert(rec.decoded().quota =~= d.quota);
    match d.vcs {
        Some(v) => {
            lemma_text_field_round_trip(v.cwd, 260);
            lemma_text_field_round_trip(v.branch, 64);
            lemma_optional_field_round_trip(v.remote_web_url, 256);
            assert(rec.vcs.decoded() == v);
        },
        None => {},
    }
}


/// A record never yields more than 16 quota items, however large its
/// count field.
pub proof fn lemma_decoded_quota_bounded(rec: SharedCacheData)
    ensures
        rec.decoded().quota.len() <= 16,
        rec.decoded().quota.len() <= rec.quota_count,
{
}

/// The stored login code reads back as the login state it was written
/// for.
pub proof fn lemma_login_code_round_trip(state: Option<bool>)
    ensures
        login_state(login_code(state)) == state,
{
}

} // verus!





