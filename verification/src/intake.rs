use vstd::prelude::*;
use crate::error::ApiError;
use crate::text::{hex_encode, str_eq};
use crate::digest::{fed, hex_sha256, sha256_feed, sha256_finish, sha256_start, Sha256Stream};

verus! {

/// How many leading bytes of an upload are kept to recognise its type.
pub const MAGIC_LEN: usize = 16;

/// What has been read of an uploaded file so far: its size, its first bytes
/// and the SHA-256 computation over all of it.
pub struct StreamState {
    size: u64,
    magic: Vec<u8>,
    hasher: Sha256Stream,
}

/// How many leading bytes of `n` are kept.
pub open spec fn kept(n: nat) -> int {
    if n < MAGIC_LEN { n as int } else { MAGIC_LEN as int }
}

impl StreamState {
    /// The size is that of the bytes fed to the hash, and the leading bytes
    /// kept are the first `MAGIC_LEN` of them (all, when fewer).
    pub closed spec fn wf(&self) -> bool {
        &&& self.magic@.len() <= MAGIC_LEN
        &&& fed(self.hasher).len() == self.size
        &&& self.magic@ == fed(self.hasher).take(kept(fed(self.hasher).len()))
    }

    /// All the bytes received so far, in order.
    pub closed spec fn bytes(&self) -> Seq<u8> {
        fed(self.hasher)
    }

    /// The bytes received so far have this length.
    pub closed spec fn received(&self) -> u64 {
        self.size
    }

    /// The first bytes received, at most `MAGIC_LEN` of them.
    pub closed spec fn leading(&self) -> Seq<u8> {
        self.magic@
    }

    /// Nothing received yet.
    pub fn new() -> (r: StreamState)
        ensures
            r.wf(),
            r.received() == 0,
            r.leading() == Seq::<u8>::empty(),
            r.bytes() == Seq::<u8>::empty(),
    {
        let r = StreamState { size: 0, magic: Vec::new(), hasher: sha256_start() };
        assert(r.magic@ =~= fed(r.hasher).take(0));
        r
    }

    /// Takes in the next chunk of the file, refusing it when the total would
    /// not fit in 64 bits or would exceed `max` bytes; the chunk may then be
    /// written out. The leading bytes keep growing up to `MAGIC_LEN`.
    pub fn absorb(&mut self, chunk: &[u8], max: u64) -> (r: Result<(), ApiError>)
        requires
            old(self).wf(),
        ensures
            final(self).wf(),
            old(self).received() + chunk@.len() > u64::MAX ==> (r matches Err(e) && e.is_validation(
                "file is too large"@,
            )),
            old(self).received() + chunk@.len() <= u64::MAX && old(self).received() + chunk@.len() > max
                ==> (r matches Err(e) && e.is_validation("file exceeds server max upload size"@)),
            r is Ok <==> old(self).received() + chunk@.len() <= max,
            r is Ok ==> final(self).received() == old(self).received() + chunk@.len(),
            r is Ok ==> final(self).bytes() == old(self).bytes() + chunk@,
            r is Err ==> final(self).bytes() == old(self).bytes() && final(self).received() == old(self).received()
                && final(self).leading() == old(self).leading(),
            r is Ok ==> final(self).leading() == (old(self).leading() + chunk@).take(
                if old(self).leading().len() + chunk@.len() < MAGIC_LEN {
                    (old(self).leading().len() + chunk@.len()) as int
                } else {
                    MAGIC_LEN as int
                },
            ),
    {
        let len = chunk.len() as u64;
        let total = match self.size.checked_add(len) {
            Some(t) => t,
            None => return Err(ApiError::validation("file is too large")),
        };
        if total > max {
            return Err(ApiError::validation("file exceeds server max upload size"));
        }
        self.size = total;
        let ghost before = self.magic@;
        let ghost old_bytes = fed(self.hasher);
        if self.magic.len() < MAGIC_LEN {
            let remaining = MAGIC_LEN - self.magic.len();
            let take = if chunk.len() < remaining { chunk.len() } else { remaining };
            let mut i: usize = 0;
            while i < take
                invariant
                    take <= chunk@.len(),
                    self.size == total,
                    fed(self.hasher) == old_bytes,
                    before.len() + take <= MAGIC_LEN,
                    i <= take,
                    self.magic@ == before + chunk@.take(i as int),
                decreases take - i,
            {
                self.magic.push(chunk[i]);
                assert(chunk@.take(i + 1) == chunk@.take(i as int).push(chunk@[i as int]));
                i = i + 1;
            }
            assert((before + chunk@).take(before.len() + take) == before + chunk@.take(take as int));
        } else {
            assert((before + chunk@).take(MAGIC_LEN as int) == before.take(MAGIC_LEN as int));
            assert(before.take(before.len() as int) == before);
        }
        sha256_feed(&mut self.hasher, chunk);
        proof {
            let all = old_bytes + chunk@;
            let n = kept(all.len());
            if old_bytes.len() < MAGIC_LEN {
                assert(before =~= old_bytes);
                assert((before + chunk@).take(n) =~= all.take(n));
            } else {
                assert(before =~= old_bytes.take(MAGIC_LEN as int));
                assert((before + chunk@).take(MAGIC_LEN as int) =~= all.take(MAGIC_LEN as int));
            }
        }
        Ok(())
    }

    /// The size, the leading bytes and the lowercase hex SHA-256 digest of the
    /// file.
    pub fn finish(self) -> (r: (u64, Vec<u8>, String))
        requires
            self.wf(),
        ensures
            r.0 == self.received(),
            r.0 == self.bytes().len(),
            r.1@ == self.leading(),
            r.1@ == self.bytes().take(kept(self.bytes().len())),
            r.2@ == hex_sha256(self.bytes()),
    {
        let StreamState { size, magic, hasher } = self;
        let digest = sha256_finish(hasher);
        let hex = hex_encode(&digest);
        (size, magic, hex)
    }
}

/// The fields of a multipart upload read so far.
pub struct UploadForm {
    pub file_seen: bool,
    pub filename: String,
    pub content_type: Option<String>,
    pub preset_id: Option<String>,
    pub preset: Option<String>,
    pub project_id: Option<String>,
}

impl UploadForm {
    /// No field read yet.
    pub fn new() -> (r: UploadForm)
        ensures
            !r.file_seen,
            r.filename@ == Seq::<char>::empty(),
            r.content_type is None && r.preset_id is None && r.preset is None && r.project_id is None,
    {
        UploadForm {
            file_seen: false,
            filename: String::new(),
            content_type: None,
            preset_id: None,
            preset: None,
            project_id: None,
        }
    }

    /// Takes in the file field: only one is allowed; a file without a name is
    /// called `upload.bin`. Its bytes are streamed next.
    pub fn file_field(&mut self, file_name: Option<&str>, content_type: Option<&str>) -> (r: Result<(), ApiError>)
        ensures
            old(self).file_seen ==> (r matches Err(e) && e.is_validation(
                "multipart request must contain one file field"@,
            ) && *final(self) == *old(self)),
            !old(self).file_seen ==> (r is Ok && final(self).file_seen && final(self).filename@ == match file_name {
                Some(n) => n@,
                None => "upload.bin"@,
            } && crate::http::opt_view(final(self).content_type) == crate::text::opt_str_view(content_type)
                && final(self).preset_id == old(self).preset_id && final(self).preset == old(self).preset
                && final(self).project_id == old(self).project_id),
    {
        if self.file_seen {
            return Err(ApiError::validation("multipart request must contain one file field"));
        }
        self.file_seen = true;
        self.filename = match file_name {
            Some(n) => n.to_owned(),
            None => "upload.bin".to_owned(),
        };
        self.content_type = match content_type {
            Some(c) => Some(c.to_owned()),
            None => None,
        };
        Ok(())
    }

    /// Takes in a text field: `preset_id`, `preset` and `project_id` are kept
    /// (a later one replacing an earlier one); others are ignored.
    pub fn text_field(&mut self, name: &str, value: String)
        ensures
            final(self).file_seen == old(self).file_seen,
            final(self).filename == old(self).filename,
            final(self).content_type == old(self).content_type,
            final(self).preset_id == if name@ == "preset_id"@ { Some(value) } else { old(self).preset_id },
            final(self).preset == if name@ == "preset"@ { Some(value) } else { old(self).preset },
            final(self).project_id == if name@ == "project_id"@ { Some(value) } else { old(self).project_id },
    {
        proof {
            reveal_strlit("preset_id");
            reveal_strlit("preset");
            reveal_strlit("project_id");
            assert("preset_id"@.len() == 9 && "preset"@.len() == 6 && "project_id"@.len() == 10);
        }
        if str_eq(name, "preset_id") {
            self.preset_id = Some(value);
        } else if str_eq(name, "preset") {
            self.preset = Some(value);
        } else if str_eq(name, "project_id") {
            self.project_id = Some(value);
        }
    }

    /// Checks the form once every field is read: there must be a file, and it
    /// must not be empty.
    pub fn complete(&self, size: u64) -> (r: Result<(), ApiError>)
        ensures
            r is Ok <==> self.file_seen && size > 0,
            r matches Err(e) ==> e.is_validation("multipart file field is required"@),
    {
        if !self.file_seen || size == 0 {
            return Err(ApiError::validation("multipart file field is required"));
        }
        Ok(())
    }
}

} // verus!
