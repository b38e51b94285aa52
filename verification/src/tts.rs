//! Text-to-speech requests: voice selection, the jobs handed to the speech
//! worker, the cache key of a spoken phrase, and the bookkeeping of the cache of
//! generated audio files.

use vstd::prelude::*;
use vstd::string::StringExecFns;
use vstd::utf8::encode_utf8;
use sha2::Digest;

verus! {

/// Voice used when none is given, and by `sayen`.
pub open spec fn english_voice() -> Seq<char> {
    "en_US-ryan-medium"@
}

/// Voice used by `saysk`.
pub open spec fn slovak_voice() -> Seq<char> {
    "sk_SK-lili-medium"@
}

/// A phrase to speak, handed to the speech worker.
#[derive(Debug, Clone, PartialEq, Eq)]
pub struct SpeechJob {
    /// Text to speak.
    pub text: String,
    /// Voice model name.
    pub voice: String,
    /// Whether the caller waits until playback has finished.
    pub blocking: bool,
}

fn english() -> (s: &'static str)
    ensures
        s@ == english_voice(),
{
    "en_US-ryan-medium"
}

fn slovak() -> (s: &'static str)
    ensures
        s@ == slovak_voice(),
{
    "sk_SK-lili-medium"
}

/// The job that speaks `text` with `voice` (the English voice when none is given).
pub fn say_impl(text: &str, voice: Option<&str>, blocking: bool) -> (job: SpeechJob)
    ensures
        job.text@ == text@,
        job.voice@ == match voice {
            Some(v) => v@,
            None => english_voice(),
        },
        job.blocking == blocking,
{
    let v: &str = match voice {
        Some(v) => v,
        None => english(),
    };
    SpeechJob { text: String::from_str(text), voice: String::from_str(v), blocking }
}

/// Speak `text` without waiting: the job to hand to the worker.
pub fn say(text: &str, voice: Option<&str>) -> (job: SpeechJob)
    ensures
        job.text@ == text@,
        job.voice@ == match voice {
            Some(v) => v@,
            None => english_voice(),
        },
        !job.blocking,
{
    say_impl(text, voice, false)
}

/// Speak `text` and wait until playback has finished: the job to hand to the worker.
pub fn say_blocking(text: &str, voice: Option<&str>) -> (job: SpeechJob)
    ensures
        job.text@ == text@,
        job.voice@ == match voice {
            Some(v) => v@,
            None => english_voice(),
        },
        job.blocking,
{
    say_impl(text, voice, true)
}

/// Speak English text without waiting.
pub fn sayen(text: &str) -> (job: SpeechJob)
    ensures
        job.text@ == text@,
        job.voice@ == english_voice(),
        !job.blocking,
{
    say(text, Some(english()))
}

/// Speak Slovak text without waiting.
pub fn saysk(text: &str) -> (job: SpeechJob)
    ensures
        job.text@ == text@,
        job.voice@ == slovak_voice(),
        !job.blocking,
{
    say(text, Some(slovak()))
}

/// Speak English text and wait.
pub fn sayen_blocking(text: &str) -> (job: SpeechJob)
    ensures
        job.text@ == text@,
        job.voice@ == english_voice(),
        job.blocking,
{
    say_blocking(text, Some(english()))
}

/// Speak Slovak text and wait.
pub fn saysk_blocking(text: &str) -> (job: SpeechJob)
    ensures
        job.text@ == text@,
        job.voice@ == slovak_voice(),
        job.blocking,
{
    say_blocking(text, Some(slovak()))
}

/// The SHA-256 digest of a byte sequence.
pub uninterp spec fn sha256_spec(data: Seq<u8>) -> Seq<u8>;

/// Calls `sha2::Sha256::digest`. Claimed: the result is the SHA-256 digest of
/// `data` (named `sha256_spec`, a function of `data` alone) and is 32 bytes long.
#[verifier::external_body]
fn sha256_digest(data: &[u8]) -> (d: Vec<u8>)
    ensures
        d@ == sha256_spec(data@),
        d@.len() == 32,
{
    sha2::Sha256::digest(data).to_vec()
}

/// Lower-case hexadecimal digit of a value below 16.
pub open spec fn hex_char(n: int) -> char {
    if n < 10 {
        (48 + n) as char
    } else {
        (87 + n) as char
    }
}

/// Lower-case hexadecimal text of a byte sequence, two digits per byte.
pub open spec fn hex_lower_spec(data: Seq<u8>) -> Seq<char>
    decreases data.len(),
{
    if data.len() == 0 {
        Seq::empty()
    } else {
        hex_lower_spec(data.drop_last()) + seq![hex_char((data.last() / 16) as int), hex_char((data.last() % 16) as int)]
    }
}

fn hex_digit(n: u8) -> (s: &'static str)
    requires
        n < 16,
    ensures
        s@ == seq![hex_char(n as int)],
{
    match n {
        0 => {
            proof {
                reveal_strlit("0");
            }
            "0"
        },
        1 => {
            proof {
                reveal_strlit("1");
            }
            "1"
        },
        2 => {
            proof {
                reveal_strlit("2");
            }
            "2"
        },
        3 => {
            proof {
                reveal_strlit("3");
            }
            "3"
        },
        4 => {
            proof {
                reveal_strlit("4");
            }
            "4"
        },
        5 => {
            proof {
                reveal_strlit("5");
            }
            "5"
        },
        6 => {
            proof {
                reveal_strlit("6");
            }
            "6"
        },
        7 => {
            proof {
                reveal_strlit("7");
            }
            "7"
        },
        8 => {
            proof {
                reveal_strlit("8");
            }
            "8"
        },
        9 => {
            proof {
                reveal_strlit("9");
            }
            "9"
        },
        10 => {
            proof {
                reveal_strlit("a");
            }
            "a"
        },
        11 => {
            proof {
                reveal_strlit("b");
            }
            "b"
        },
        12 => {
            proof {
                reveal_strlit("c");
            }
            "c"
        },
        13 => {
            proof {
                reveal_strlit("d");
            }
            "d"
        },
        14 => {
            proof {
                reveal_strlit("e");
            }
            "e"
        },
        _ => {
            proof {
                reveal_strlit("f");
            }
            "f"
        },
    }
}

/// Lower-case hexadecimal text of `data`.
pub fn hex_lower(data: &[u8]) -> (s: String)
    ensures
        s@ == hex_lower_spec(data@),
{
    let mut s = String::new();
    let mut i: usize = 0;
    while i < data.len()
        invariant
            i <= data@.len(),
            s@ == hex_lower_spec(data@.take(i as int)),
        decreases data@.len() - i,
    {
        assert(data@.take(i + 1).drop_last() =~= data@.take(i as int));
        let b = data[i];
        s.append(hex_digit(b / 16));
        s.append(hex_digit(b % 16));
        i = i + 1;
    }
    assert(data@.take(data@.len() as int) =~= data@);
    s
}

/// The bytes hashed for a phrase: the UTF-8 text, a colon, and the UTF-8 voice name.
pub open spec fn cache_key_input(text: Seq<char>, voice: Seq<char>) -> Seq<u8> {
    encode_utf8(text) + seq![58u8] + encode_utf8(voice)
}

/// The cache key of a phrase: lower-case hexadecimal SHA-256 of `text:voice`.
pub fn generate_cache_key(text: &str, voice: &str) -> (key: String)
    ensures
        key@ == hex_lower_spec(sha256_spec(cache_key_input(text@, voice@))),
        key@.len() == 64,
{
    let mut input: Vec<u8> = Vec::new();
    input.extend_from_slice(text.as_bytes());
    input.push(58u8);
    input.extend_from_slice(voice.as_bytes());
    assert(input@ =~= cache_key_input(text@, voice@));
    let digest = sha256_digest(input.as_slice());
    proof {
        lemma_hex_len(digest@);
    }
    hex_lower(digest.as_slice())
}

/// Hexadecimal text has two digits per byte.
pub proof fn lemma_hex_len(data: Seq<u8>)
    ensures
        hex_lower_spec(data).len() == 2 * data.len(),
    decreases data.len(),
{
    if data.len() > 0 {
        lemma_hex_len(data.drop_last());
    }
}

/// Byte `i` of the input is written as characters `2i` (its high four bits) and
/// `2i + 1` (its low four bits); the values 0 to 9 are written `0` to `9` and 10
/// to 15 are written `a` to `f`.
pub proof fn lemma_hex_digits(data: Seq<u8>, i: int)
    requires
        0 <= i < data.len(),
    ensures
        ({
            let out = hex_lower_spec(data);
            let hi = data[i] / 16;
            let lo = data[i] % 16;
            &&& out[2 * i] as int == if hi < 10 { 48 + hi } else { 97 + (hi - 10) }
            &&& out[2 * i + 1] as int == if lo < 10 { 48 + lo } else { 97 + (lo - 10) }
        }),
    decreases data.len(),
{
    let prefix = data.drop_last();
    lemma_hex_len(prefix);
    if i < data.len() - 1 {
        lemma_hex_digits(prefix, i);
        assert(prefix[i] == data[i]);
    }
}

/// Distinct byte sequences have distinct hexadecimal texts, so distinct digests
/// give distinct cache keys.
pub proof fn lemma_hex_injective(a: Seq<u8>, b: Seq<u8>)
    requires
        hex_lower_spec(a) == hex_lower_spec(b),
    ensures
        a == b,
    decreases a.len(),
{
    lemma_hex_len(a);
    lemma_hex_len(b);
    if a.len() > 0 {
        let ha = hex_lower_spec(a.drop_last());
        let hb = hex_lower_spec(b.drop_last());
        lemma_hex_len(a.drop_last());
        lemma_hex_len(b.drop_last());
        let n = ha.len() as int;
        assert(hex_lower_spec(a).subrange(0, n) =~= ha);
        assert(hex_lower_spec(b).subrange(0, n) =~= hb);
        lemma_hex_injective(a.drop_last(), b.drop_last());
        let x = a.last();
        let y = b.last();
        assert(hex_lower_spec(a)[n] == hex_char((x / 16) as int));
        assert(hex_lower_spec(b)[n] == hex_char((y / 16) as int));
        assert(hex_lower_spec(a)[n + 1] == hex_char((x % 16) as int));
        assert(hex_lower_spec(b)[n + 1] == hex_char((y % 16) as int));
        lemma_hex_char_injective((x / 16) as int, (y / 16) as int);
        lemma_hex_char_injective((x % 16) as int, (y % 16) as int);
        assert(x == y);
        assert(a =~= a.drop_last().push(x));
        assert(b =~= b.drop_last().push(y));
    }
}

proof fn lemma_hex_char_injective(m: int, n: int)
    requires
        0 <= m < 16,
        0 <= n < 16,
        hex_char(m) == hex_char(n),
    ensures
        m == n,
{
    assert(hex_char(m) as int == if m < 10 { 48 + m } else { 87 + m });
    assert(hex_char(n) as int == if n < 10 { 48 + n } else { 87 + n });
}

/// Bookkeeping of one cached phrase.
#[derive(Debug, Clone, PartialEq, Eq)]
pub struct CacheEntry {
    pub text: String,
    pub voice: String,
    pub file_path: String,
    pub use_count: u32,
    /// Unix time of the last use, in seconds.
    pub last_used: u64,
}

/// The mathematical content of a cache entry.
pub struct EntryModel {
    pub text: Seq<char>,
    pub voice: Seq<char>,
    pub file_path: Seq<char>,
    pub use_count: u32,
    pub last_used: u64,
}

impl View for CacheEntry {
    type V = EntryModel;

    open spec fn view(&self) -> EntryModel {
        EntryModel {
            text: self.text@,
            voice: self.voice@,
            file_path: self.file_path@,
            use_count: self.use_count,
            last_used: self.last_used,
        }
    }
}

/// The cache of generated phrases: entries by cache key, each key at most once.
#[derive(Debug, Clone)]
pub struct CacheData {
    pub entries: Vec<(String, CacheEntry)>,
}

/// The keys of a list of keyed entries.
pub open spec fn keys_of(es: Seq<(String, CacheEntry)>) -> Seq<Seq<char>> {
    es.map_values(|e: (String, CacheEntry)| e.0@)
}

/// Position of `key` among the keys, if present.
pub open spec fn position_of(ks: Seq<Seq<char>>, key: Seq<char>) -> Option<int> {
    if exists|i: int| 0 <= i < ks.len() && ks[i] == key {
        Some(choose|i: int| 0 <= i < ks.len() && ks[i] == key)
    } else {
        None
    }
}

impl CacheData {
    /// Well-formedness: no key occurs twice.
    pub open spec fn wf(&self) -> bool {
        keys_of(self.entries@).no_duplicates()
    }

    /// The entry stored under `key`, if any.
    pub open spec fn entry(&self, key: Seq<char>) -> Option<EntryModel> {
        match position_of(keys_of(self.entries@), key) {
            Some(i) => Some(self.entries@[i].1@),
            None => None,
        }
    }

    /// An empty cache.
    pub fn new() -> (c: CacheData)
        ensures
            c.wf(),
            c.entries@.len() == 0,
    {
        let c = CacheData { entries: Vec::new() };
        assert(keys_of(c.entries@) =~= Seq::<Seq<char>>::empty());
        c
    }

    /// Position of the entry stored under `key`.
    pub fn find(&self, key: &String) -> (r: Option<usize>)
        requires
            self.wf(),
        ensures
            r matches Some(i) ==> i < self.entries@.len() && self.entries@[i as int].0@ == key@,
            r is None ==> self.entry(key@) is None,
            r matches Some(i) ==> self.entry(key@) == Some(self.entries@[i as int].1@),
    {
        let mut i: usize = 0;
        while i < self.entries.len()
            invariant
                self.wf(),
                i <= self.entries@.len(),
                forall|j: int| 0 <= j < i ==> self.entries@[j].0@ != key@,
            decreases self.entries@.len() - i,
        {
            if self.entries[i].0 == *key {
                proof {
                    let ks = keys_of(self.entries@);
                    assert(ks[i as int] == key@);
                    let c = choose|j: int| 0 <= j < ks.len() && ks[j] == key@;
                    assert(ks[c] == key@);
                    if c != i {
                        assert(ks.no_duplicates());
                    }
                }
                return Some(i);
            }
            i = i + 1;
        }
        proof {
            let ks = keys_of(self.entries@);
            assert forall|j: int| 0 <= j < ks.len() implies ks[j] != key@ by {
                assert(ks[j] == self.entries@[j].0@);
            }
        }
        None
    }

    /// A cache hit on `key` at time `now`: when the entry exists its use count
    /// goes up by one and its last use becomes `now`; `false` (and no change) when
    /// there is no such entry.
    pub fn record_use(&mut self, key: &String, now: u64) -> (found: bool)
        requires
            old(self).wf(),
            old(self).entry(key@) matches Some(e) ==> e.use_count < u32::MAX,
        ensures
            final(self).wf(),
            found == old(self).entry(key@) is Some,
            keys_of(final(self).entries@) == keys_of(old(self).entries@),
            forall|k: Seq<char>| k != key@ ==> #[trigger] final(self).entry(k) == old(self).entry(k),
            old(self).entry(key@) matches Some(e) ==> final(self).entry(key@) == Some(EntryModel {
                use_count: (e.use_count + 1) as u32,
                last_used: now,
                ..e
            }),
            old(self).entry(key@) is None ==> final(self).entries@ == old(self).entries@,
    {
        match self.find(key) {
            None => false,
            Some(i) => {
                let (k, mut e) = self.entries.remove(i);
                e.use_count = e.use_count + 1;
                e.last_used = now;
                self.entries.insert(i, (k, e));
                proof {
                    let ko = keys_of(old(self).entries@);
                    let kn = keys_of(self.entries@);
                    assert(kn =~= ko);
                    assert forall|k2: Seq<char>| k2 != key@ implies #[trigger] self.entry(k2) == old(self).entry(k2) by {
                        if position_of(ko, k2) is Some {
                            let j = choose|j: int| 0 <= j < ko.len() && ko[j] == k2;
                            assert(j != i);
                            assert(self.entries@[j] == old(self).entries@[j]);
                        }
                    }
                    let j = choose|j: int| 0 <= j < kn.len() && kn[j] == key@;
                    assert(kn[i as int] == key@);
                    assert(j == i);
                }
                true
            },
        }
    }

    /// Record a newly generated phrase under `key` at time `now`: the entry is
    /// created when missing (text, voice, path, count 0), then its use count goes
    /// up by one, its last use becomes `now` and its file path becomes `file_path`.
    pub fn record_generated(
        &mut self,
        key: &String,
        text: &String,
        voice: &String,
        file_path: &String,
        now: u64,
    )
        requires
            old(self).wf(),
            old(self).entry(key@) matches Some(e) ==> e.use_count < u32::MAX,
        ensures
            final(self).wf(),
            forall|k: Seq<char>| k != key@ ==> #[trigger] final(self).entry(k) == old(self).entry(k),
            final(self).entry(key@) == Some(match old(self).entry(key@) {
                Some(e) => EntryModel {
                    use_count: (e.use_count + 1) as u32,
                    last_used: now,
                    file_path: file_path@,
                    ..e
                },
                None => EntryModel {
                    text: text@,
                    voice: voice@,
                    file_path: file_path@,
                    use_count: 1,
                    last_used: now,
                },
            }),
    {
        match self.find(key) {
            Some(i) => {
                let (k, mut e) = self.entries.remove(i);
                e.use_count = e.use_count + 1;
                e.last_used = now;
                e.file_path = file_path.clone();
                self.entries.insert(i, (k, e));
                proof {
                    let ko = keys_of(old(self).entries@);
                    let kn = keys_of(self.entries@);
                    assert(kn =~= ko);
                    assert forall|k2: Seq<char>| k2 != key@ implies #[trigger] self.entry(k2) == old(self).entry(k2) by {
                        if position_of(ko, k2) is Some {
                            let j = choose|j: int| 0 <= j < ko.len() && ko[j] == k2;
                            assert(j != i);
                            assert(self.entries@[j] == old(self).entries@[j]);
                        }
                    }
                    let j = choose|j: int| 0 <= j < kn.len() && kn[j] == key@;
                    assert(kn[i as int] == key@);
                    assert(j == i);
                }
            },
            None => {
                let e = CacheEntry {
                    text: text.clone(),
                    voice: voice.clone(),
                    file_path: file_path.clone(),
                    use_count: 1,
                    last_used: now,
                };
                self.entries.push((key.clone(), e));
                proof {
                    let ko = keys_of(old(self).entries@);
                    let kn = keys_of(self.entries@);
                    assert(kn =~= ko.push(key@));
                    assert(kn.no_duplicates()) by {
                        assert forall|a: int, b: int| 0 <= a < kn.len() && 0 <= b < kn.len() && a != b implies kn[a] != kn[b] by {
                            if a < ko.len() && b < ko.len() {
                            } else if a == ko.len() {
                                assert(ko[b] != key@);
                            } else {
                                assert(ko[a] != key@);
                            }
                        }
                    }
                    assert forall|k2: Seq<char>| k2 != key@ implies #[trigger] self.entry(k2) == old(self).entry(k2) by {
                        if position_of(ko, k2) is Some {
                            let j = choose|j: int| 0 <= j < ko.len() && ko[j] == k2;
                            assert(kn[j] == k2);
                            let j2 = choose|j: int| 0 <= j < kn.len() && kn[j] == k2;
                            assert(j2 == j);
                            assert(self.entries@[j] == old(self).entries@[j]);
                        } else {
                            assert forall|j: int| 0 <= j < kn.len() implies kn[j] != k2 by {
                                if j < ko.len() {
                                    assert(kn[j] == ko[j]);
                                }
                            }
                        }
                    }
                    let last = kn.len() - 1;
                    assert(kn[last] == key@);
                    let j = choose|j: int| 0 <= j < kn.len() && kn[j] == key@;
                    assert(j == last);
                }
            },
        }
    }

    /// Remove the entry stored under `key`, if any.
    pub fn remove(&mut self, key: &String)
        requires
            old(self).wf(),
        ensures
            final(self).wf(),
            final(self).entry(key@) is None,
            forall|k: Seq<char>| k != key@ ==> #[trigger] final(self).entry(k) == old(self).entry(k),
    {
        match self.find(key) {
            None => {},
            Some(i) => {
                let ghost ko = keys_of(self.entries@);
                let _removed = self.entries.remove(i);
                proof {
                    let kn = keys_of(self.entries@);
                    assert(kn =~= ko.remove(i as int));
                    assert forall|a: int, b: int| 0 <= a < kn.len() && 0 <= b < kn.len() && a != b implies kn[a] != kn[b] by {
                        let a2 = if a < i { a } else { a + 1 };
                        let b2 = if b < i { b } else { b + 1 };
                        assert(kn[a] == ko[a2]);
                        assert(kn[b] == ko[b2]);
                    }
                    assert(ko[i as int] == key@);
                    assert forall|j: int| 0 <= j < kn.len() implies kn[j] != key@ by {
                        let j2 = if j < i { j } else { j + 1 };
                        assert(kn[j] == ko[j2]);
                        assert(j2 != i);
                    }
                    assert forall|k2: Seq<char>| k2 != key@ implies #[trigger] self.entry(k2) == old(self).entry(k2) by {
                        if position_of(ko, k2) is Some {
                            let j = choose|j: int| 0 <= j < ko.len() && ko[j] == k2;
                            assert(j != i);
                            let jn = if j < i { j } else { j - 1 };
                            assert(kn[jn] == k2);
                            let j2 = choose|j: int| 0 <= j < kn.len() && kn[j] == k2;
                            assert(j2 == jn);
                            assert(self.entries@[jn] == old(self).entries@[j]);
                        } else {
                            assert forall|j: int| 0 <= j < kn.len() implies kn[j] != k2 by {
                                let j2 = if j < i { j } else { j + 1 };
                                assert(kn[j] == ko[j2]);
                            }
                        }
                    }
                }
            },
        }
    }

    /// The keys of the entries due for clean-up at time `now`: those used exactly
    /// once whose last use lies more than `days_threshold` days in the past.
    pub fn stale_keys(&self, now: u64, days_threshold: u64) -> (keys: Vec<String>)
        requires
            self.wf(),
            days_threshold * 86400 <= u64::MAX,
            forall|i: int|
                0 <= i < self.entries@.len() && (#[trigger] self.entries@[i]).1.use_count == 1
                    ==> self.entries@[i].1.last_used <= now,
        ensures
            keys@.map_values(|k: String| k@) == keys_of(
                self.entries@.filter(|e: (String, CacheEntry)| is_stale(e.1@, now, days_threshold)),
            ),
    {
        let threshold: u64 = days_threshold * 86400;
        let mut keys: Vec<String> = Vec::new();
        let mut i: usize = 0;
        let ghost pred = |e: (String, CacheEntry)| is_stale(e.1@, now, days_threshold);
        while i < self.entries.len()
            invariant
                i <= self.entries@.len(),
                threshold == days_threshold * 86400,
                pred == (|e: (String, CacheEntry)| is_stale(e.1@, now, days_threshold)),
                forall|j: int|
                    0 <= j < self.entries@.len() && (#[trigger] self.entries@[j]).1.use_count == 1
                        ==> self.entries@[j].1.last_used <= now,
                keys@.map_values(|k: String| k@) == keys_of(self.entries@.take(i as int).filter(pred)),
            decreases self.entries@.len() - i,
        {
            let ghost before = keys@;
            assert(self.entries@.take(i + 1).drop_last() =~= self.entries@.take(i as int));
            reveal_with_fuel(Seq::<_>::filter, 1);
            let e = &self.entries[i];
            if e.1.use_count == 1 && now - e.1.last_used > threshold {
                keys.push(e.0.clone());
                assert(keys@.map_values(|k: String| k@) =~= before.map_values(|k: String| k@).push(e.0@));
                assert(keys_of(self.entries@.take(i + 1).filter(pred)) =~= keys_of(self.entries@.take(i as int).filter(pred)).push(e.0@));
            } else {
                assert(keys_of(self.entries@.take(i + 1).filter(pred)) =~= keys_of(self.entries@.take(i as int).filter(pred)));
            }
            i = i + 1;
        }
        assert(self.entries@.take(self.entries@.len() as int) =~= self.entries@);
        keys
    }
}

/// What the speech worker does with a job.
#[derive(Debug, Clone, Copy, PartialEq, Eq)]
pub enum CachePlan {
    /// Play the cached audio file and count a use.
    Replay,
    /// Ask the speech server for new audio and record it.
    Generate,
}

impl CacheData {
    /// The plan for a job whose cache key is `key`: replay when the key has an
    /// entry and its audio file exists (`file_exists`), otherwise generate.
    pub fn plan_job(&self, key: &String, file_exists: bool) -> (p: CachePlan)
        requires
            self.wf(),
        ensures
            p == if self.entry(key@) is Some && file_exists {
                CachePlan::Replay
            } else {
                CachePlan::Generate
            },
    {
        match self.find(key) {
            Some(_) => if file_exists {
                CachePlan::Replay
            } else {
                CachePlan::Generate
            },
            None => CachePlan::Generate,
        }
    }
}

/// Whether an entry is due for clean-up at time `now`: used exactly once, last
/// used more than `days_threshold` days before `now`.
pub open spec fn is_stale(e: EntryModel, now: u64, days_threshold: u64) -> bool {
    e.use_count == 1 && now - e.last_used > days_threshold * 86400
}

} // verus!
