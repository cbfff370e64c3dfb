use vstd::prelude::*;

verus! {

/// UTF-8 bytes of a string view; recipe fields are hashed as their bytes.
pub open spec fn utf8_bytes(s: Seq<char>) -> Seq<u8> {
    vstd::utf8::encode_utf8(s)
}

/// The lowercase-hex SHA-256 digest of a byte sequence.  The hash itself is
/// computed by the `shaman` crate; this name stands for its result, which
/// depends on the fed bytes alone.
pub uninterp spec fn sha256_hex(bytes: Seq<u8>) -> Seq<char>;

pub open spec fn is_lower_hex_char(c: char) -> bool {
    ('0' <= c && c <= '9') || ('a' <= c && c <= 'f')
}

#[verifier::external_type_specification]
#[verifier::external_body]
pub struct ExSha256(shaman::sha2::Sha256);

/// Relies on `shaman::sha2::Sha256::new`: a fresh SHA-256 state.  What the
/// state means is carried by the `fed` field of `Digest`, which the
/// contracts of `input` and `result_str` speak of.
#[verifier::external_body]
fn sha_new() -> shaman::sha2::Sha256 {
    shaman::sha2::Sha256::new()
}

/// A streaming content hasher with the domain-specific framing used for
/// recipe versioning: fields and items are separated by NUL bytes so that
/// distinct field boundaries always produce distinct byte streams.
///
/// The view of a `Digest` is the full byte sequence fed to it so far.
pub struct Digest {
    inner: shaman::sha2::Sha256,
    fed: Ghost<Seq<u8>>,
}

impl View for Digest {
    type V = Seq<u8>;

    closed spec fn view(&self) -> Seq<u8> {
        self.fed@
    }
}

/// Decimal digit bytes of `n`, most significant first.
pub open spec fn dec_bytes(n: nat) -> Seq<u8>
    decreases n,
{
    if n < 10 {
        seq![(48 + n) as u8]
    } else {
        dec_bytes(n / 10) + seq![(48 + n % 10) as u8]
    }
}

impl Digest {
    /// A fresh digest over no bytes.
    pub fn new() -> (d: Digest)
        ensures
            d@ == Seq::<u8>::empty(),
    {
        Digest { inner: sha_new(), fed: Ghost(Seq::empty()) }
    }

    /// Relies on `shaman::digest::Digest::input`: feeds bytes to the
    /// streaming hash.
    #[verifier::external_body]
    fn input(&mut self, data: &[u8])
        ensures
            final(self)@ == old(self)@ + data@,
    {
        shaman::digest::Digest::input(&mut self.inner, data);
    }

    /// Relies on `shaman::digest::Digest::result_str`: 64 lowercase hex
    /// characters of the SHA-256 of everything fed so far, a function of
    /// those bytes alone.
    #[verifier::external_body]
    pub fn result_str(self) -> (r: String)
        ensures
            r@ == sha256_hex(self@),
            r@.len() == 64,
            forall|i: int| 0 <= i < r@.len() ==> is_lower_hex_char(#[trigger] r@[i]),
    {
        let mut inner = self.inner;
        shaman::digest::Digest::result_str(&mut inner)
    }

    /// Feed one value terminated by a NUL byte.
    pub fn item(&mut self, value: &[u8])
        ensures
            final(self)@ == old(self)@ + value@ + seq![0u8],
    {
        self.input(value);
        self.input(&[0u8]);
        proof {
            assert(self@ =~= old(self)@ + value@ + seq![0u8]);
        }
    }

    /// Feed one string value terminated by a NUL byte.
    pub fn item_str(&mut self, value: &str)
        ensures
            final(self)@ == old(self)@ + utf8_bytes(value@) + seq![0u8],
    {
        self.item(value.as_bytes());
    }

    /// Feed a key/value pair, each terminated by a NUL byte.
    pub fn field(&mut self, key: &str, value: &[u8])
        ensures
            final(self)@ == old(self)@ + utf8_bytes(key@) + seq![0u8] + value@ + seq![0u8],
    {
        self.item(key.as_bytes());
        self.item(value);
        proof {
            assert(self@ =~= old(self)@ + utf8_bytes(key@) + seq![0u8] + value@ + seq![0u8]);
        }
    }

    /// Feed a key/value pair of strings.
    pub fn field_str(&mut self, key: &str, value: &str)
        ensures
            final(self)@ == old(self)@ + utf8_bytes(key@) + seq![0u8] + utf8_bytes(value@) + seq![
                0u8,
            ],
    {
        self.field(key, value.as_bytes());
    }

    /// Feed a key with a numeric value formatted in decimal.
    pub fn text(&mut self, key: &str, value: u64)
        ensures
            final(self)@ == old(self)@ + utf8_bytes(key@) + seq![0u8] + dec_bytes(value as nat) + seq![
                0u8,
            ],
    {
        self.item(key.as_bytes());
        let mut digits: Vec<u8> = Vec::new();
        push_decimal(&mut digits, value);
        self.item(digits.as_slice());
        proof {
            assert(self@ =~= old(self)@ + utf8_bytes(key@) + seq![0u8] + dec_bytes(value as nat)
                + seq![0u8]);
        }
    }

    /// Feed a key/value pair only when the value is present.
    pub fn opt_field(&mut self, key: &str, value: &Option<String>)
        ensures
            final(self)@ == match value {
                Some(v) => old(self)@ + utf8_bytes(key@) + seq![0u8] + utf8_bytes(v@) + seq![0u8],
                None => old(self)@,
            },
    {
        if let Some(v) = value {
            self.field_str(key, v.as_str());
        }
    }

    /// Feed a key and a boolean.  The historical encoding maps `true` to
    /// the byte `'0'` and `false` to `'1'`; it is preserved verbatim so
    /// that existing hashes stay stable.
    pub fn bool(&mut self, key: &str, value: bool)
        ensures
            final(self)@ == old(self)@ + utf8_bytes(key@) + seq![0u8] + seq![
                if value {
                    48u8
                } else {
                    49u8
                },
            ],
    {
        self.item(key.as_bytes());
        if value {
            self.input(&[48u8]);
        } else {
            self.input(&[49u8]);
        }
        proof {
            assert(self@ =~= old(self)@ + utf8_bytes(key@) + seq![0u8] + seq![
                if value {
                    48u8
                } else {
                    49u8
                },
            ]);
        }
    }

    /// Feed a key followed by every string of a sequence, each terminated
    /// by a NUL byte.
    pub fn sequence(&mut self, key: &str, seq: &Vec<String>)
        ensures
            final(self)@ == old(self)@ + utf8_bytes(key@) + seq![0u8] + items_bytes(seq.deep_view()),
    {
        self.item(key.as_bytes());
        let ghost mid = self@;
        let mut i: usize = 0;
        while i < seq.len()
            invariant
                i <= seq.len(),
                self@ == mid + items_bytes(seq.deep_view().take(i as int)),
            decreases seq.len() - i,
        {
            let ghost before = self@;
            self.item_str(seq[i].as_str());
            proof {
                lemma_items_bytes_push(seq.deep_view(), i as int);
                assert(self@ =~= mid + items_bytes(seq.deep_view().take(i + 1)));
            }
            i += 1;
        }
        proof {
            assert(seq.deep_view().take(seq.len() as int) =~= seq.deep_view());
            assert(self@ =~= old(self)@ + utf8_bytes(key@) + seq![0u8] + items_bytes(
                seq.deep_view(),
            ));
        }
    }
}

impl Digest {
    /// Feed every string of a sequence, each terminated by a NUL byte.
    pub fn items(&mut self, seq: &Vec<String>)
        ensures
            final (self)@ == old(self)@ + items_bytes(seq.deep_view()),
    {
        let ghost mid = self@;
        let mut i: usize = 0;
        while i < seq.len()
            invariant
                i <= seq.len(),
                self@ == mid + items_bytes(seq.deep_view().take(i as int)),
            decreases seq.len() - i,
        {
            self.item_str(seq[i].as_str());
            proof {
                lemma_items_bytes_push(seq.deep_view(), i as int);
                assert(self@ =~= mid + items_bytes(seq.deep_view().take(i + 1)));
            }
            i += 1;
        }
        proof {
            assert(seq.deep_view().take(seq.len() as int) =~= seq.deep_view());
            assert(self@ =~= old(self)@ + items_bytes(seq.deep_view()));
        }
    }

    /// Feed every key/value pair of a list, every part NUL-terminated.
    pub fn pair_list(&mut self, pairs: &Vec<(String, String)>)
        ensures
            final (self)@ == old(self)@ + pairs_bytes(pairs.deep_view()),
    {
        let ghost mid = self@;
        let mut i: usize = 0;
        while i < pairs.len()
            invariant
                i <= pairs.len(),
                self@ == mid + pairs_bytes(pairs.deep_view().take(i as int)),
            decreases pairs.len() - i,
        {
            self.field_str(pairs[i].0.as_str(), pairs[i].1.as_str());
            proof {
                lemma_pairs_bytes_push(pairs.deep_view(), i as int);
                assert(self@ =~= mid + pairs_bytes(pairs.deep_view().take(i + 1)));
            }
            i += 1;
        }
        proof {
            assert(pairs.deep_view().take(pairs.len() as int) =~= pairs.deep_view());
            assert(self@ =~= old(self)@ + pairs_bytes(pairs.deep_view()));
        }
    }

    /// Feed a key followed by every key/value pair of a list.
    pub fn pairs(&mut self, key: &str, pairs: &Vec<(String, String)>)
        ensures
            final(self)@ == old(self)@ + utf8_bytes(key@) + seq![0u8] + pairs_bytes(
                pairs.deep_view(),
            ),
    {
        self.item(key.as_bytes());
        let ghost mid = self@;
        let mut i: usize = 0;
        while i < pairs.len()
            invariant
                i <= pairs.len(),
                self@ == mid + pairs_bytes(pairs.deep_view().take(i as int)),
            decreases pairs.len() - i,
        {
            self.field_str(pairs[i].0.as_str(), pairs[i].1.as_str());
            proof {
                lemma_pairs_bytes_push(pairs.deep_view(), i as int);
                assert(self@ =~= mid + pairs_bytes(pairs.deep_view().take(i + 1)));
            }
            i += 1;
        }
        proof {
            assert(pairs.deep_view().take(pairs.len() as int) =~= pairs.deep_view());
            assert(self@ =~= old(self)@ + utf8_bytes(key@) + seq![0u8] + pairs_bytes(
                pairs.deep_view(),
            ));
        }
    }
}

/// The byte stream of a list of key/value pairs, every part NUL-terminated.
pub open spec fn pairs_bytes(pairs: Seq<(Seq<char>, Seq<char>)>) -> Seq<u8>
    decreases pairs.len(),
{
    if pairs.len() == 0 {
        Seq::<u8>::empty()
    } else {
        pairs_bytes(pairs.drop_last()) + utf8_bytes(pairs.last().0) + seq![0u8] + utf8_bytes(
            pairs.last().1,
        ) + seq![0u8]
    }
}

proof fn lemma_pairs_bytes_push(pairs: Seq<(Seq<char>, Seq<char>)>, i: int)
    requires
        0 <= i < pairs.len(),
    ensures
        pairs_bytes(pairs.take(i + 1)) == pairs_bytes(pairs.take(i)) + utf8_bytes(pairs[i].0)
            + seq![0u8] + utf8_bytes(pairs[i].1) + seq![0u8],
{
    assert(pairs.take(i + 1).drop_last() =~= pairs.take(i));
    assert(pairs.take(i + 1).last() == pairs[i]);
}

/// The byte stream of a list of NUL-terminated string items.
pub open spec fn items_bytes(items: Seq<Seq<char>>) -> Seq<u8>
    decreases items.len(),
{
    if items.len() == 0 {
        Seq::<u8>::empty()
    } else {
        items_bytes(items.drop_last()) + utf8_bytes(items.last()) + seq![0u8]
    }
}

proof fn lemma_items_bytes_push(items: Seq<Seq<char>>, i: int)
    requires
        0 <= i < items.len(),
    ensures
        items_bytes(items.take(i + 1)) == items_bytes(items.take(i)) + utf8_bytes(items[i]) + seq![
            0u8,
        ],
{
    assert(items.take(i + 1).drop_last() =~= items.take(i));
    assert(items.take(i + 1).last() == items[i]);
}

/// Append the decimal digits of `n` to `out`.
pub fn push_decimal(out: &mut Vec<u8>, n: u64)
    ensures
        final(out)@ == old(out)@ + dec_bytes(n as nat),
    decreases n,
{
    if n < 10 {
        out.push(48 + (n as u8));
        proof {
            assert(out@ =~= old(out)@ + dec_bytes(n as nat));
        }
    } else {
        assert(n / 10 < n && n / 10 >= 1) by (nonlinear_arith)
            requires
                n >= 10,
        ;
        push_decimal(out, n / 10);
        out.push(48 + ((n % 10) as u8));
        proof {
            assert(out@ =~= old(out)@ + dec_bytes(n as nat));
        }
    }
}


/// Decimal digits of `n` as characters, most significant first.
pub open spec fn dec_chars(n: nat) -> Seq<char>
    decreases n,
{
    if n < 10 {
        seq![((48 + n) as u8) as char]
    } else {
        dec_chars(n / 10) + seq![((48 + n % 10) as u8) as char]
    }
}

fn digit_str(d: u64) -> (r: &'static str)
    requires
        d < 10,
    ensures
        r@ == dec_chars(d as nat),
{
    let r: &'static str = match d {
        0 => "0",
        1 => "1",
        2 => "2",
        3 => "3",
        4 => "4",
        5 => "5",
        6 => "6",
        7 => "7",
        8 => "8",
        _ => "9",
    };
    proof {
        reveal_strlit("0");
        reveal_strlit("1");
        reveal_strlit("2");
        reveal_strlit("3");
        reveal_strlit("4");
        reveal_strlit("5");
        reveal_strlit("6");
        reveal_strlit("7");
        reveal_strlit("8");
        reveal_strlit("9");
        assert(r@ =~= dec_chars(d as nat));
    }
    r
}

/// Append the decimal form of `n` to a string.
pub fn concat_decimal(s: String, n: u64) -> (r: String)
    ensures
        r@ == s@ + dec_chars(n as nat),
    decreases n,
{
    if n < 10 {
        let r = vstd::string::StringExecFns::concat(s, digit_str(n));
        r
    } else {
        assert(n / 10 < n && n / 10 >= 1) by (nonlinear_arith)
            requires
                n >= 10,
        ;
        let r = vstd::string::StringExecFns::concat(concat_decimal(s, n / 10), digit_str(n % 10));
        proof {
            assert(r@ =~= s@ + dec_chars(n as nat));
        }
        r
    }
}


/// What the hasher needs to know of one filesystem entry: its stat
/// metadata and, by kind, its link target or contents.
pub enum FileKind {
    /// A regular file and its contents.
    Regular(Vec<u8>),
    /// A symlink and its target bytes.
    Symlink(Vec<u8>),
    /// Anything else contributes metadata only.
    Other,
}

/// A filesystem entry as handed to the hasher: name bytes, mode and
/// ownership, and the kind-specific payload.
pub struct FileInfo {
    pub name: Vec<u8>,
    pub mode: u32,
    pub uid: u32,
    pub gid: u32,
    pub kind: FileKind,
}

/// The bytes one filesystem entry feeds into the digest: its name,
/// mode and ownership as framed fields, then the link target or the
/// file contents verbatim.
pub open spec fn spec_file_bytes(info: FileInfo, owner_uid: Option<u32>, owner_gid: Option<
    u32,
>) -> Seq<u8> {
    utf8_bytes("filename"@) + seq![0u8] + info.name@ + seq![0u8] + utf8_bytes("mode"@) + seq![0u8]
        + dec_bytes(info.mode as nat) + seq![0u8] + utf8_bytes("uid"@) + seq![0u8] + dec_bytes(
        (match owner_uid {
            Some(u) => u,
            None => info.uid,
        }) as nat,
    ) + seq![0u8] + utf8_bytes("gid"@) + seq![0u8] + dec_bytes(
        (match owner_gid {
            Some(g) => g,
            None => info.gid,
        }) as nat,
    ) + seq![0u8] + (match info.kind {
        FileKind::Regular(data) => data@,
        FileKind::Symlink(target) => target@,
        FileKind::Other => Seq::<u8>::empty(),
    })
}

impl Digest {
    /// Feed one filesystem entry: name, mode, ownership (with optional
    /// overrides) and its contents or link target.
    #[verifier::rlimit(100)]
    #[verifier::spinoff_prover]
    pub fn file(&mut self, info: &FileInfo, owner_uid: Option<u32>, owner_gid: Option<u32>)
        ensures
            final (self)@ == old(self)@ + spec_file_bytes(*info, owner_uid, owner_gid),
    {
        self.field("filename", info.name.as_slice());
        self.text("mode", info.mode as u64);
        let uid = match owner_uid {
            Some(u) => u,
            None => info.uid,
        };
        self.text("uid", uid as u64);
        let gid = match owner_gid {
            Some(g) => g,
            None => info.gid,
        };
        self.text("gid", gid as u64);
        match &info.kind {
            FileKind::Regular(data) => {
                self.input(data.as_slice());
            },
            FileKind::Symlink(target) => {
                self.input(target.as_slice());
            },
            FileKind::Other => {},
        }
        proof {
            assert(self@ =~= old(self)@ + spec_file_bytes(*info, owner_uid, owner_gid));
        }
    }
}


/// The digest of one byte string, as 64 hex characters.
pub fn sha256_of(data: &[u8]) -> (r: String)
    ensures
        r@ == sha256_hex(data@),
        r@.len() == 64,
        forall|i: int| 0 <= i < r@.len() ==> is_lower_hex_char(#[trigger] r@[i]),
{
    let mut d = Digest::new();
    d.input(data);
    proof {
        assert(d@ =~= data@);
    }
    d.result_str()
}


/// Byte-lexicographic order, as a sorted directory listing yields its
/// names.
pub open spec fn bytes_le(a: Seq<u8>, b: Seq<u8>) -> bool
    decreases a.len(),
{
    if a.len() == 0 {
        true
    } else if b.len() == 0 {
        false
    } else if a.first() < b.first() {
        true
    } else if a.first() > b.first() {
        false
    } else {
        bytes_le(a.drop_first(), b.drop_first())
    }
}

/// A flattened directory walk in the required order: entries carry
/// their full paths, strictly increasing, which is exactly what
/// recursing into every directory in sorted order produces.
pub open spec fn spec_tree_sorted(entries: Seq<FileInfo>) -> bool {
    forall|i: int|
        0 <= i < entries.len() - 1 ==> (bytes_le(
            (#[trigger] entries[i]).name@,
            entries[i + 1].name@,
        ) && entries[i].name@ != entries[i + 1].name@)
}

/// The bytes a whole tree feeds: each entry's framed bytes in walk
/// order.
pub open spec fn spec_tree_bytes(
    entries: Seq<FileInfo>,
    owner_uid: Option<u32>,
    owner_gid: Option<u32>,
) -> Seq<u8>
    decreases entries.len(),
{
    if entries.len() == 0 {
        Seq::<u8>::empty()
    } else {
        spec_tree_bytes(entries.drop_last(), owner_uid, owner_gid) + spec_file_bytes(
            entries.last(),
            owner_uid,
            owner_gid,
        )
    }
}

impl Digest {
    /// Feed a directory tree, flattened to full-path entries in the
    /// sorted depth-first order a directory walk must visit them in.
    pub fn file_tree(
        &mut self,
        entries: &Vec<FileInfo>,
        owner_uid: Option<u32>,
        owner_gid: Option<u32>,
    )
        requires
            spec_tree_sorted(entries@),
        ensures
            final (self)@ == old(self)@ + spec_tree_bytes(entries@, owner_uid, owner_gid),
    {
        let mut i: usize = 0;
        proof {
            assert(entries@.take(0) =~= Seq::<FileInfo>::empty());
            assert(self@ =~= old(self)@ + spec_tree_bytes(entries@.take(0), owner_uid, owner_gid));
        }
        while i < entries.len()
            invariant
                i <= entries@.len(),
                self@ == old(self)@ + spec_tree_bytes(entries@.take(i as int), owner_uid, owner_gid),
            decreases entries@.len() - i,
        {
            proof {
                assert(entries@.take(i + 1).drop_last() =~= entries@.take(i as int));
                assert(entries@.take(i + 1).last() == entries@[i as int]);
            }
            self.file(&entries[i], owner_uid, owner_gid);
            proof {
                assert(self@ =~= old(self)@ + spec_tree_bytes(
                    entries@.take(i + 1),
                    owner_uid,
                    owner_gid,
                ));
            }
            i += 1;
        }
        proof {
            assert(entries@.take(entries@.len() as int) =~= entries@);
        }
    }
}

} // verus!
