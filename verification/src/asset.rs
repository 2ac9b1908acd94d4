//! The model-asset manager's decision core: deriving the model filename from
//! its URL, choosing among candidate locations, verifying a downloaded
//! payload against expected size and checksum, and the retry/backoff state
//! machine around download attempts.
//!
//! The byte transfer itself and all file operations stay with the
//! surrounding process; it reports each attempt's outcome here and performs
//! exactly the action decided — commit by atomic rename, delete the
//! temporary file and retry after the given delay, or give up.

use sha2::Digest;
use vstd::prelude::*;

verus! {

/// The SHA-256 digest of a byte sequence.  The function of the bytes alone;
/// its value is not axiomatized here.
pub uninterp spec fn sha256_of(data: Seq<u8>) -> Seq<u8>;

#[verifier::external_type_specification]
#[verifier::external_body]
pub struct ExSha256(sha2::Sha256);

/// The bytes a hasher has absorbed so far, in order.
pub uninterp spec fn hasher_fed(h: sha2::Sha256) -> Seq<u8>;

/// Relies on sha2's `Sha256::new`: a fresh hasher has absorbed nothing.
#[verifier::external_body]
fn sha256_new() -> (h: sha2::Sha256)
    ensures
        hasher_fed(h) == Seq::<u8>::empty(),
{
    sha2::Sha256::new()
}

/// Relies on sha2's `Digest::update`: absorbs the chunk after everything
/// absorbed before.
#[verifier::external_body]
fn sha256_update(h: &mut sha2::Sha256, chunk: &[u8])
    ensures
        hasher_fed(*final(h)) == hasher_fed(*old(h)) + chunk@,
{
    h.update(chunk)
}

/// Relies on sha2's `Digest::finalize`: the digest of everything absorbed,
/// 32 bytes, a function of those bytes alone.
#[verifier::external_body]
fn sha256_finalize(h: sha2::Sha256) -> (r: Vec<u8>)
    ensures
        r@ == sha256_of(hasher_fed(h)),
        r@.len() == 32,
{
    h.finalize().to_vec()
}

/// A running SHA-256 over bytes fed chunk by chunk, so a large payload never
/// has to sit in memory whole to be checksummed.
pub struct Sha256Stream {
    hasher: sha2::Sha256,
}

impl Sha256Stream {
    pub closed spec fn bytes_fed(&self) -> Seq<u8> {
        hasher_fed(self.hasher)
    }

    pub fn new() -> (r: Self)
        ensures
            r.bytes_fed() == Seq::<u8>::empty(),
    {
        Sha256Stream { hasher: sha256_new() }
    }

    /// Absorbs one chunk after everything fed before.
    pub fn update(&mut self, chunk: &[u8])
        ensures
            final(self).bytes_fed() == old(self).bytes_fed() + chunk@,
    {
        sha256_update(&mut self.hasher, chunk);
    }

    /// The lowercase hex digest of everything fed: 64 characters.
    pub fn finalize_hex(self) -> (r: String)
        ensures
            r@ == hex_of(sha256_of(self.bytes_fed())),
            r@.len() == 64,
    {
        let digest = sha256_finalize(self.hasher);
        proof {
            lemma_hex_of_len(digest@);
        }
        hex_encode(digest.as_slice())
    }
}

proof fn lemma_hex_of_len(data: Seq<u8>)
    ensures
        hex_of(data).len() == 2 * data.len(),
    decreases data.len(),
{
    if data.len() > 0 {
        lemma_hex_of_len(data.drop_first());
    }
}

/// The lowercase hex digit for a nibble.
pub open spec fn hex_digit(n: int) -> char {
    if n == 0 {
        '0'
    } else if n == 1 {
        '1'
    } else if n == 2 {
        '2'
    } else if n == 3 {
        '3'
    } else if n == 4 {
        '4'
    } else if n == 5 {
        '5'
    } else if n == 6 {
        '6'
    } else if n == 7 {
        '7'
    } else if n == 8 {
        '8'
    } else if n == 9 {
        '9'
    } else if n == 10 {
        'a'
    } else if n == 11 {
        'b'
    } else if n == 12 {
        'c'
    } else if n == 13 {
        'd'
    } else if n == 14 {
        'e'
    } else {
        'f'
    }
}

/// Lowercase hex encoding: two digits per byte, high nibble first.
pub open spec fn hex_of(data: Seq<u8>) -> Seq<char>
    decreases data.len(),
{
    if data.len() == 0 {
        Seq::empty()
    } else {
        seq![hex_digit(data.first() as int / 16), hex_digit(data.first() as int % 16)] + hex_of(
            data.drop_first(),
        )
    }
}

/// Relies on hex's `encode`: lowercase, two digits per byte, high nibble
/// first.
#[verifier::external_body]
fn hex_encode(data: &[u8]) -> (r: String)
    ensures
        r@ == hex_of(data@),
{
    hex::encode(data)
}

/// The lowercase hex SHA-256 checksum of a byte buffer, as configuration
/// files state it: 64 characters.
pub fn checksum_hex(data: &Vec<u8>) -> (r: String)
    ensures
        r@ == hex_of(sha256_of(data@)),
        r@.len() == 64,
{
    let mut stream = Sha256Stream::new();
    stream.update(data.as_slice());
    proof {
        assert(Seq::<u8>::empty() + data@ =~= data@);
    }
    stream.finalize_hex()
}

/// The position of the last `/`, or `-1` when there is none.
pub open spec fn last_slash(s: Seq<char>) -> int
    decreases s.len(),
{
    if s.len() == 0 {
        -1
    } else if s.last() == '/' {
        s.len() - 1
    } else {
        last_slash(s.drop_last())
    }
}

/// The final path component of a URL: everything after the last `/`.
pub open spec fn spec_filename_of_url(url: Seq<char>) -> Seq<char> {
    url.skip(last_slash(url) + 1)
}

/// Derives the model's filename from the URL's final path component.
pub fn model_filename_from_url(url: &str) -> (r: String)
    ensures
        r@ == spec_filename_of_url(url@),
{
    let v = crate::chars::str_to_chars(url);
    let n = v.len();
    let mut k: usize = n;
    proof {
        assert(v@.subrange(0, n as int) =~= v@);
    }
    while k > 0 && v[k - 1] != '/'
        invariant
            k <= n,
            n == v@.len(),
            v@ == url@,
            last_slash(v@) == last_slash(v@.subrange(0, k as int)),
        decreases k,
    {
        proof {
            let cur = v@.subrange(0, k as int);
            assert(cur.last() == v@[k as int - 1]);
            assert(cur.drop_last() =~= v@.subrange(0, k as int - 1));
        }
        k = k - 1;
    }
    proof {
        let cur = v@.subrange(0, k as int);
        if k > 0 {
            assert(cur.last() == v@[k as int - 1]);
            assert(last_slash(cur) == k - 1);
        } else {
            assert(cur.len() == 0);
            assert(last_slash(cur) == -1);
        }
    }
    let mut out: Vec<char> = Vec::new();
    let mut i: usize = k;
    while i < n
        invariant
            k <= i <= n,
            n == v@.len(),
            out@ =~= v@.subrange(k as int, i as int),
        decreases n - i,
    {
        out.push(v[i]);
        proof {
            assert(v@.subrange(k as int, i as int + 1) =~= v@.subrange(k as int, i as int).push(
                v@[i as int],
            ));
        }
        i = i + 1;
    }
    proof {
        assert(v@.subrange(k as int, n as int) =~= v@.skip(k as int));
    }
    crate::chars::chars_to_string(&out)
}

/// The locations probed for the model file, in priority order: the
/// user-local data directory (when a home is known), the system-shared
/// directory, a working-directory `models` folder, and the working
/// directory itself.
pub fn candidate_model_paths(home: Option<&str>, filename: &str) -> (r: Vec<String>)
    ensures
        match home {
            Some(h) => r@.len() == 4 && r@[0]@ == h@ + "/.local/share/ndict/"@ + filename@
                && r@[1]@ == "/usr/share/whisper/"@ + filename@ && r@[2]@ == "./models/"@
                + filename@ && r@[3]@ == filename@,
            None => r@.len() == 3 && r@[0]@ == "/usr/share/whisper/"@ + filename@ && r@[1]@
                == "./models/"@ + filename@ && r@[2]@ == filename@,
        },
{
    let mut r: Vec<String> = Vec::new();
    match home {
        Some(h) => {
            let mut user_local = h.to_owned();
            user_local.append("/.local/share/ndict/");
            user_local.append(filename);
            r.push(user_local);
        },
        None => {},
    }
    let mut shared = String::from_str("/usr/share/whisper/");
    shared.append(filename);
    r.push(shared);
    let mut models = String::from_str("./models/");
    models.append(filename);
    r.push(models);
    r.push(filename.to_owned());
    r
}

/// The first candidate that exists, by index; `None` when none does.
pub fn pick_first_existing(paths: &Vec<String>, present: &Vec<bool>) -> (r: Option<usize>)
    requires
        paths@.len() == present@.len(),
    ensures
        match r {
            Some(i) => i < paths@.len() && present@[i as int] && forall|j: int|
                0 <= j < i ==> !(#[trigger] present@[j]),
            None => forall|j: int| 0 <= j < present@.len() ==> !(#[trigger] present@[j]),
        },
{
    let n = present.len();
    let mut i: usize = 0;
    while i < n
        invariant
            i <= n,
            n == present@.len(),
            n == paths@.len(),
            forall|j: int| 0 <= j < i ==> !(#[trigger] present@[j]),
        decreases n - i,
    {
        if present[i] {
            return Some(i);
        }
        i = i + 1;
    }
    None
}

/// What to do about the model file before the engine loads: use what is on
/// disk, or (re)download.
#[derive(Debug, Clone, Copy, PartialEq, Eq, Structural)]
pub enum ModelFileAction {
    UseExisting,
    Download,
}

/// Decides whether the model must be fetched: an absent file is downloaded,
/// a present one is trusted unless a configured checksum disagrees with it
/// — a possibly corrupt file is never used silently.
pub fn plan_model_load(file_present: bool, checksum_matches: Option<bool>) -> (r: ModelFileAction)
    ensures
        r == (if !file_present {
            ModelFileAction::Download
        } else if checksum_matches == Some(false) {
            ModelFileAction::Download
        } else {
            ModelFileAction::UseExisting
        }),
{
    if !file_present {
        ModelFileAction::Download
    } else {
        match checksum_matches {
            Some(false) => ModelFileAction::Download,
            _ => ModelFileAction::UseExisting,
        }
    }
}

/// Why a download attempt was rejected.
#[derive(Debug, Clone, PartialEq)]
pub enum DownloadError {
    /// The transfer itself failed; the transport's message.
    Network(String),
    /// The byte count disagreed with the size announced up front.
    SizeMismatch { expected: u64, actual: u64 },
    /// The digest disagreed with the configured checksum.
    ChecksumMismatch { expected: String, actual: String },
}

/// What the transport reports for one finished attempt.
#[derive(Debug, Clone, PartialEq)]
pub enum AttemptOutcome {
    /// The transfer broke off; the transport's message.
    TransferFailed(String),
    /// All bytes arrived: their count, the size the server announced (when
    /// it announced one), and the lowercase hex SHA-256 of what was written.
    Transferred { size: u64, expected_size: Option<u64>, checksum_hex: String },
}

/// Whether a finished transfer passes verification against the announced
/// size and the configured checksum.
pub open spec fn transfer_verified(
    size: u64,
    expected_size: Option<u64>,
    checksum_hex: Seq<char>,
    configured: Option<Seq<char>>,
) -> bool {
    &&& match expected_size {
        Some(e) => e == size,
        None => true,
    }
    &&& match configured {
        Some(c) => c == checksum_hex,
        None => true,
    }
}

/// Verifies a finished transfer: the byte count against the announced size
/// first, then the digest against the configured checksum.  Accepts exactly
/// the verified transfers.
/// Exactly which error a failed verification carries: the size mismatch
/// with both counts when the announced size disagrees, else the checksum
/// mismatch with the configured and the computed digest.
pub open spec fn transfer_error_exact(
    size: u64,
    expected_size: Option<u64>,
    checksum_hex: Seq<char>,
    configured: Option<Seq<char>>,
    e: DownloadError,
) -> bool {
    match e {
        DownloadError::SizeMismatch { expected, actual } => expected_size == Some(expected)
            && actual == size && expected != size,
        DownloadError::ChecksumMismatch { expected, actual } => {
            &&& match expected_size {
                Some(x) => x == size,
                None => true,
            }
            &&& match configured {
                Some(c) => expected@ == c && c != checksum_hex,
                None => false,
            }
            &&& actual@ == checksum_hex
        },
        DownloadError::Network(_) => false,
    }
}

pub fn verify_transfer(
    size: u64,
    expected_size: Option<u64>,
    checksum_hex: &String,
    configured: &Option<String>,
) -> (r: Result<(), DownloadError>)
    ensures
        r is Ok <==> transfer_verified(
            size,
            expected_size,
            checksum_hex@,
            match configured {
                Some(c) => Some(c@),
                None => None,
            },
        ),
        match r {
            Ok(()) => true,
            Err(e) => transfer_error_exact(
                size,
                expected_size,
                checksum_hex@,
                match configured {
                    Some(c) => Some(c@),
                    None => None,
                },
                e,
            ),
        },
{
    match expected_size {
        Some(e) => {
            if e != size {
                return Err(DownloadError::SizeMismatch { expected: e, actual: size });
            }
        },
        None => {},
    }
    match configured {
        Some(c) => {
            if !c.eq(checksum_hex) {
                return Err(
                    DownloadError::ChecksumMismatch {
                        expected: c.clone(),
                        actual: checksum_hex.clone(),
                    },
                );
            }
        },
        None => {},
    }
    Ok(())
}

/// Powers of two, for the retry backoff.
pub open spec fn spec_pow2(n: nat) -> nat
    decreases n,
{
    if n == 0 {
        1
    } else {
        2 * spec_pow2((n - 1) as nat)
    }
}

proof fn lemma_pow2_pos(n: nat)
    ensures
        spec_pow2(n) >= 1,
    decreases n,
{
    if n > 0 {
        lemma_pow2_pos((n - 1) as nat);
    }
}

proof fn lemma_pow2_mono(m: nat, n: nat)
    requires
        m <= n,
    ensures
        spec_pow2(m) <= spec_pow2(n),
    decreases n,
{
    if m < n {
        lemma_pow2_mono(m, (n - 1) as nat);
        lemma_pow2_pos((n - 1) as nat);
    }
}

proof fn lemma_pow2_bound(n: nat)
    requires
        n <= 20,
    ensures
        1 <= spec_pow2(n) <= 0x100000,
{
    lemma_pow2_pos(n);
    lemma_pow2_mono(n, 20);
    assert(spec_pow2(20) == 0x100000) by {
        reveal_with_fuel(spec_pow2, 21);
    }
}

fn pow2_u64(n: u32) -> (r: u64)
    requires
        n <= 20,
    ensures
        r == spec_pow2(n as nat),
        1 <= r <= 0x100000,
{
    proof {
        lemma_pow2_bound(n as nat);
    }
    let mut r: u64 = 1;
    let mut i: u32 = 0;
    while i < n
        invariant
            i <= n <= 20,
            r == spec_pow2(i as nat),
            1 <= r,
        decreases n - i,
    {
        proof {
            lemma_pow2_bound(i as nat + 1);
        }
        r = r * 2;
        i = i + 1;
    }
    r
}

/// What the surrounding process must do after an attempt.
#[derive(Debug, Clone, PartialEq)]
pub enum DownloadAction {
    /// The payload verified: rename the temporary file onto the final path.
    Commit,
    /// The attempt failed: the temporary file is already written off;
    /// wait this long, then try again.
    Retry { delay_ms: u64 },
    /// Attempts are exhausted: surface the last error to the caller.
    Abort(DownloadError),
}

/// The retry/backoff state machine around one model download.  One instance
/// tracks one download from first attempt to commit or exhaustion.
pub struct DownloadTask {
    pub max_attempts: u32,
    pub attempts_used: u32,
    pub expected_checksum: Option<String>,
    pub temp_file_present: bool,
    pub committed: bool,
}

/// The fixed number of attempts a download gets before its last error is
/// surfaced.
pub const MAX_DOWNLOAD_ATTEMPTS: u32 = 3;

impl DownloadTask {
    pub open spec fn wf(&self) -> bool {
        &&& 1 <= self.max_attempts <= 20
        &&& self.attempts_used <= self.max_attempts
    }

    /// A fresh download with the standard attempt budget; no temporary file
    /// exists yet.
    pub fn new(expected_checksum: Option<String>) -> (r: Self)
        ensures
            r.wf(),
            r.max_attempts == MAX_DOWNLOAD_ATTEMPTS,
            r.attempts_used == 0,
            !r.temp_file_present,
            !r.committed,
            match (r.expected_checksum, expected_checksum) {
                (Some(a), Some(b)) => a@ == b@,
                (None, None) => true,
                _ => false,
            },
    {
        DownloadTask {
            max_attempts: MAX_DOWNLOAD_ATTEMPTS,
            attempts_used: 0,
            expected_checksum,
            temp_file_present: false,
            committed: false,
        }
    }

    /// Records that an attempt began writing the temporary file.
    pub fn begin_attempt(&mut self)
        requires
            old(self).wf(),
            !old(self).committed,
            old(self).attempts_used < old(self).max_attempts,
        ensures
            *final(self) == (DownloadTask { temp_file_present: true, ..*old(self) }),
    {
        self.temp_file_present = true;
    }

    /// Decides what follows one finished attempt.  A verified transfer is
    /// the only path to `Commit`; any failure writes off the temporary file
    /// — the final path never receives unverified bytes — and either retries
    /// after an exponential backoff or, on the last attempt, surfaces the
    /// error.
    pub fn process_attempt(&mut self, outcome: AttemptOutcome) -> (action: DownloadAction)
        requires
            old(self).wf(),
            !old(self).committed,
            old(self).attempts_used < old(self).max_attempts,
        ensures
            final(self).wf(),
            final(self).max_attempts == old(self).max_attempts,
            final(self).expected_checksum == old(self).expected_checksum,
            final(self).attempts_used == old(self).attempts_used + 1,
            !final(self).temp_file_present,
            ({
                let verified = match outcome {
                    AttemptOutcome::Transferred { size, expected_size, checksum_hex } =>
                        transfer_verified(
                        size,
                        expected_size,
                        checksum_hex@,
                        match old(self).expected_checksum {
                            Some(c) => Some(c@),
                            None => None,
                        },
                    ),
                    AttemptOutcome::TransferFailed(_) => false,
                };
                &&& (action == DownloadAction::Commit <==> verified)
                &&& final(self).committed == verified
                &&& if verified {
                    action == DownloadAction::Commit
                } else if old(self).attempts_used + 1 < old(self).max_attempts {
                    match action {
                        DownloadAction::Retry { delay_ms } => delay_ms == 1000 * spec_pow2(
                            (old(self).attempts_used + 1) as nat,
                        ),
                        _ => false,
                    }
                } else {
                    match action {
                        DownloadAction::Abort(e) => match outcome {
                            AttemptOutcome::TransferFailed(m) => match e {
                                DownloadError::Network(em) => em@ == m@,
                                _ => false,
                            },
                            AttemptOutcome::Transferred { size, expected_size, checksum_hex } =>
                                transfer_error_exact(
                                size,
                                expected_size,
                                checksum_hex@,
                                match old(self).expected_checksum {
                                    Some(c) => Some(c@),
                                    None => None,
                                },
                                e,
                            ),
                        },
                        _ => false,
                    }
                }
            }),
    {
        self.attempts_used = self.attempts_used + 1;
        self.temp_file_present = false;
        let error: DownloadError = match outcome {
            AttemptOutcome::TransferFailed(m) => DownloadError::Network(m),
            AttemptOutcome::Transferred { size, expected_size, checksum_hex } => {
                match verify_transfer(size, expected_size, &checksum_hex, &self.expected_checksum) {
                    Ok(()) => {
                        self.committed = true;
                        return DownloadAction::Commit;
                    },
                    Err(e) => e,
                }
            },
        };
        if self.attempts_used < self.max_attempts {
            let delay = 1000 * pow2_u64(self.attempts_used);
            DownloadAction::Retry { delay_ms: delay }
        } else {
            DownloadAction::Abort(error)
        }
    }
}

} // verus!
