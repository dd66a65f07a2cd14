//! The storage collaborator as the engine sees it: where the data lives, the
//! calls that can be made to it and the replies that come back. Making the
//! calls is the caller's business.

use vstd::prelude::*;

verus! {

/// How a `FileStorage` is set up.
pub struct FileStorageConfig {
    data_path: String,
}

impl FileStorageConfig {
    /// The directory under which buckets are kept.
    pub closed spec fn spec_data_path(&self) -> Seq<char> {
        self.data_path@
    }

    /// The default set-up: buckets are kept under `./data`.
    pub fn new() -> (config: Self)
        ensures
            config.spec_data_path() == "./data"@,
    {
        FileStorageConfig { data_path: "./data".to_owned() }
    }

    /// The same set-up with buckets kept under `data_path`.
    pub fn data_path(self, data_path: String) -> (config: Self)
        ensures
            config.spec_data_path() == data_path@,
    {
        FileStorageConfig { data_path }
    }
}

/// One call to the storage. `root` is the directory under which buckets are kept; a bucket
/// is the directory `bucket` under it, an object the file `object` in its bucket.
#[derive(Debug, Clone, PartialEq, Eq)]
pub enum StorageCall {
    /// Create the directory `root`.
    CreateRoot { root: String },
    /// Is there a bucket `bucket`?
    BucketExists { root: String, bucket: String },
    /// Create the bucket `bucket`.
    CreateBucket { root: String, bucket: String },
    /// Remove the bucket `bucket` and all it holds.
    DeleteBucket { root: String, bucket: String },
    /// Open the object for reading and say how many bytes it has.
    OpenObject { root: String, bucket: String, object: String },
    /// Create the object, empty, for writing.
    CreateObject { root: String, bucket: String, object: String },
}

/// What a `StorageCall` holds, as sequences of characters.
pub ghost enum StorageCallView {
    CreateRoot { root: Seq<char> },
    BucketExists { root: Seq<char>, bucket: Seq<char> },
    CreateBucket { root: Seq<char>, bucket: Seq<char> },
    DeleteBucket { root: Seq<char>, bucket: Seq<char> },
    OpenObject { root: Seq<char>, bucket: Seq<char>, object: Seq<char> },
    CreateObject { root: Seq<char>, bucket: Seq<char>, object: Seq<char> },
}

impl View for StorageCall {
    type V = StorageCallView;

    open spec fn view(&self) -> StorageCallView {
        match self {
            StorageCall::CreateRoot { root } => StorageCallView::CreateRoot { root: root@ },
            StorageCall::BucketExists { root, bucket } => StorageCallView::BucketExists {
                root: root@,
                bucket: bucket@,
            },
            StorageCall::CreateBucket { root, bucket } => StorageCallView::CreateBucket {
                root: root@,
                bucket: bucket@,
            },
            StorageCall::DeleteBucket { root, bucket } => StorageCallView::DeleteBucket {
                root: root@,
                bucket: bucket@,
            },
            StorageCall::OpenObject { root, bucket, object } => StorageCallView::OpenObject {
                root: root@,
                bucket: bucket@,
                object: object@,
            },
            StorageCall::CreateObject { root, bucket, object } => StorageCallView::CreateObject {
                root: root@,
                bucket: bucket@,
                object: object@,
            },
        }
    }
}

/// What a call to the storage gave.
#[derive(Debug, Clone, Copy, PartialEq, Eq, Structural)]
pub enum StorageReply {
    /// The answer to `BucketExists`.
    Exists(bool),
    /// The call was carried out.
    Done,
    /// The object was created and is open for writing.
    Created,
    /// The object was opened and has `size` bytes.
    Opened { size: u64 },
    /// The storage says that what the call names does not exist.
    Missing,
    /// The call failed for any other reason.
    Failed,
}

/// The storage: the directory under which buckets are kept.
#[derive(Debug)]
pub struct FileStorage {
    data_path: String,
}

impl FileStorage {
    /// The directory under which buckets are kept.
    pub closed spec fn spec_data_path(&self) -> Seq<char> {
        self.data_path@
    }

    /// The storage that `config` describes. Nothing is touched on disk: see
    /// [`FileStorage::create_root`].
    pub fn new(config: FileStorageConfig) -> (storage: Self)
        ensures
            storage.spec_data_path() == config.spec_data_path(),
    {
        FileStorage { data_path: config.data_path }
    }

    /// The directory under which buckets are kept.
    pub fn data_path(&self) -> (path: &str)
        ensures
            path@ == self.spec_data_path(),
    {
        self.data_path.as_str()
    }

    /// The call that sets the storage up, given whether its directory exists: none where it
    /// does.
    pub fn create_root(&self, exists: bool) -> (call: Option<StorageCall>)
        ensures
            exists ==> call.is_none(),
            !exists ==> call.is_some() && call.unwrap()@ == (StorageCallView::CreateRoot {
                root: self.spec_data_path(),
            }),
    {
        if exists {
            None
        } else {
            Some(StorageCall::CreateRoot { root: self.data_path.clone() })
        }
    }

    /// The call that makes sure there is a bucket `name`, given whether there is one: none
    /// where there is.
    pub fn create_bucket(&self, name: &str, exists: bool) -> (call: Option<StorageCall>)
        ensures
            exists ==> call.is_none(),
            !exists ==> call.is_some() && call.unwrap()@ == (StorageCallView::CreateBucket {
                root: self.spec_data_path(),
                bucket: name@,
            }),
    {
        if exists {
            None
        } else {
            Some(
                StorageCall::CreateBucket {
                    root: self.data_path.clone(),
                    bucket: name.to_owned(),
                },
            )
        }
    }

    /// The call that asks whether there is a bucket `name`.
    pub fn bucket_exists(&self, name: &str) -> (call: StorageCall)
        ensures
            call@ == (StorageCallView::BucketExists { root: self.spec_data_path(), bucket: name@ }),
    {
        StorageCall::BucketExists { root: self.data_path.clone(), bucket: name.to_owned() }
    }

    /// The call that removes the bucket `name`.
    pub fn delete_bucket(&self, name: &str) -> (call: StorageCall)
        ensures
            call@ == (StorageCallView::DeleteBucket { root: self.spec_data_path(), bucket: name@ }),
    {
        StorageCall::DeleteBucket { root: self.data_path.clone(), bucket: name.to_owned() }
    }

    /// The call that opens the object `object` of the bucket `bucket` for reading.
    pub fn open_file(&self, bucket: &str, object: &str) -> (call: StorageCall)
        ensures
            call@ == (StorageCallView::OpenObject {
                root: self.spec_data_path(),
                bucket: bucket@,
                object: object@,
            }),
    {
        StorageCall::OpenObject {
            root: self.data_path.clone(),
            bucket: bucket.to_owned(),
            object: object.to_owned(),
        }
    }

    /// The call that creates the object `object` in the bucket `bucket` for writing.
    pub fn create_file(&self, bucket: &str, object: &str) -> (call: StorageCall)
        ensures
            call@ == (StorageCallView::CreateObject {
                root: self.spec_data_path(),
                bucket: bucket@,
                object: object@,
            }),
    {
        StorageCall::CreateObject {
            root: self.data_path.clone(),
            bucket: bucket.to_owned(),
            object: object.to_owned(),
        }
    }
}

} // verus!
