//! The object store as a whole, on paper: an ideal storage, and what becomes
//! of a request when the steps that its handler asks for are taken against
//! it. Nothing here runs. It says what the handlers come to when the storage
//! and the connection do as they are told.

use crate::file_storage::{StorageCallView, StorageReply};
use crate::http::{HttpReqView, LineReadView, NOT_FOUND, OK_RESPONSE};
use crate::http_handler::{
    spec_content_length, spec_object_head, spec_param, Handler, HandlerEventView,
    HandlerStepView,
};
use vstd::prelude::*;

verus! {

/// An ideal storage: the buckets, and in each the objects with their bytes.
pub ghost struct Store {
    pub buckets: Map<Seq<char>, Map<Seq<char>, Seq<u8>>>,
}

impl Store {
    /// Whether there is a bucket `bucket`.
    pub open spec fn has_bucket(self, bucket: Seq<char>) -> bool {
        self.buckets.contains_key(bucket)
    }

    /// Whether there is an object `object` in a bucket `bucket`.
    pub open spec fn has_object(self, bucket: Seq<char>, object: Seq<char>) -> bool {
        self.has_bucket(bucket) && self.buckets[bucket].contains_key(object)
    }

    /// The bytes of the object `object` in the bucket `bucket`.
    pub open spec fn object(self, bucket: Seq<char>, object: Seq<char>) -> Seq<u8> {
        self.buckets[bucket][object]
    }

    /// The storage with the object `object` in the bucket `bucket` holding `bytes`.
    pub open spec fn with_object(
        self,
        bucket: Seq<char>,
        object: Seq<char>,
        bytes: Seq<u8>,
    ) -> Store {
        Store { buckets: self.buckets.insert(bucket, self.buckets[bucket].insert(object, bytes)) }
    }

    /// The storage with an empty bucket `bucket`.
    pub open spec fn with_bucket(self, bucket: Seq<char>) -> Store {
        Store { buckets: self.buckets.insert(bucket, Map::empty()) }
    }

    /// The storage without the bucket `bucket`.
    pub open spec fn without_bucket(self, bucket: Seq<char>) -> Store {
        Store { buckets: self.buckets.remove(bucket) }
    }
}

/// What a handler's steps work on: the storage, what is left of the request's body, the
/// bytes of the object that was opened last, and the bucket and name of the object that was
/// created last.
pub ghost struct World {
    pub store: Store,
    pub body: Seq<u8>,
    pub opened: Seq<u8>,
    pub created: (Seq<char>, Seq<char>),
}

/// What has come of a request: the state of things, what was written as text, the bytes
/// written after it, and whether the handler has answered.
pub ghost struct Outcome {
    pub world: World,
    pub response: Seq<char>,
    pub payload: Seq<u8>,
    pub answered: bool,
}

/// What an ideal storage answers to `call`, and what it is like afterwards. All buckets are
/// kept under one root. A bucket is created only where there is none of its name, and
/// removed with all it holds; an object is created empty in a bucket that exists, in the
/// place of an object of its name if there is one.
pub open spec fn spec_call(world: World, call: StorageCallView) -> (World, StorageReply) {
    let store = world.store;
    match call {
        StorageCallView::CreateRoot { root } => (world, StorageReply::Done),
        StorageCallView::BucketExists { root, bucket } => (
            world,
            StorageReply::Exists(store.has_bucket(bucket)),
        ),
        StorageCallView::CreateBucket { root, bucket } => if store.has_bucket(bucket) {
            (world, StorageReply::Failed)
        } else {
            (World { store: store.with_bucket(bucket), ..world }, StorageReply::Done)
        },
        StorageCallView::DeleteBucket { root, bucket } => if store.has_bucket(bucket) {
            (World { store: store.without_bucket(bucket), ..world }, StorageReply::Done)
        } else {
            (world, StorageReply::Missing)
        },
        StorageCallView::OpenObject { root, bucket, object } => if store.has_object(
            bucket,
            object,
        ) {
            let bytes = store.object(bucket, object);
            (World { opened: bytes, ..world }, StorageReply::Opened { size: bytes.len() as u64 })
        } else {
            (world, StorageReply::Missing)
        },
        StorageCallView::CreateObject { root, bucket, object } => if store.has_bucket(bucket) {
            (
                World {
                    store: store.with_object(bucket, object, Seq::empty()),
                    created: (bucket, object),
                    ..world
                },
                StorageReply::Created,
            )
        } else {
            (world, StorageReply::Missing)
        },
    }
}

/// The first `size` bytes of `bytes`, or all of them where there are fewer.
pub open spec fn spec_first(bytes: Seq<u8>, size: u64) -> Seq<u8> {
    if size <= bytes.len() {
        bytes.take(size as int)
    } else {
        bytes
    }
}

/// What becomes of a request when its handler is called because of `event` and the steps
/// that it asks for are taken, `steps` of them at most: an answer is written, a storage call
/// is made against the ideal storage, the head of an object is written and the object's
/// bytes after it, or bytes of the body are moved into the object that was created last.
/// No line of the body can be read: the body is bytes.
pub open spec fn spec_deal(
    handler: Handler,
    req: HttpReqView,
    event: HandlerEventView,
    world: World,
    steps: nat,
) -> Outcome
    decreases steps,
{
    if steps == 0 {
        Outcome { world, response: Seq::empty(), payload: Seq::empty(), answered: false }
    } else {
        let left = (steps - 1) as nat;
        match handler.spec_handle_request(req, event) {
            HandlerStepView::Respond { response, close } => Outcome {
                world,
                response,
                payload: Seq::empty(),
                answered: true,
            },
            HandlerStepView::Call { call } => {
                let (after, reply) = spec_call(world, call);
                spec_deal(handler, req, HandlerEventView::Storage(reply), after, left)
            },
            HandlerStepView::SendObject { head, size } => Outcome {
                world,
                response: head,
                payload: spec_first(world.opened, size),
                answered: true,
            },
            HandlerStepView::ReceiveObject { size } => {
                let taken = spec_first(world.body, size);
                let after = World {
                    store: world.store.with_object(world.created.0, world.created.1, taken),
                    body: world.body.skip(taken.len() as int),
                    ..world
                };
                spec_deal(
                    handler,
                    req,
                    HandlerEventView::Storage(StorageReply::Done),
                    after,
                    left,
                )
            },
            HandlerStepView::ReadLine => spec_deal(
                handler,
                req,
                HandlerEventView::Line(LineReadView::Failed),
                world,
                left,
            ),
        }
    }
}

/// Storing an object: the answer is `200`, the object holds the first bytes of the body, as
/// many as `content-length` declares, and the rest of the body is left on the connection.
pub proof fn lemma_store_object(
    handler: Handler,
    req: HttpReqView,
    world: World,
    bucket: Seq<char>,
    object: Seq<char>,
    size: nat,
)
    requires
        handler is CreateObject,
        spec_param(req, "bucket_name"@) == Some(bucket),
        spec_param(req, "object_name"@) == Some(object),
        spec_content_length(req) == Some(size),
        world.store.has_bucket(bucket),
        size <= world.body.len(),
    ensures
        ({
            let after = spec_deal(handler, req, HandlerEventView::Request, world, 3);
            &&& after.answered
            &&& after.response == OK_RESPONSE@
            &&& after.payload == Seq::<u8>::empty()
            &&& after.world.store == world.store.with_object(
                bucket,
                object,
                world.body.take(size as int),
            )
            &&& after.world.body == world.body.skip(size as int)
        }),
{
    reveal_with_fuel(spec_deal, 4);
    let created = world.store.with_object(bucket, object, Seq::empty());
    let stored = created.with_object(bucket, object, world.body.take(size as int));
    assert(stored.buckets =~= world.store.with_object(
        bucket,
        object,
        world.body.take(size as int),
    ).buckets) by {
        assert(created.buckets[bucket].insert(object, world.body.take(size as int))
            =~= world.store.buckets[bucket].insert(object, world.body.take(size as int)));
    }
}

/// Sending an object: the head declares the length of the object, the bytes that follow it
/// are the bytes of the object, and the storage is left as it was.
pub proof fn lemma_send_object(
    handler: Handler,
    req: HttpReqView,
    world: World,
    bucket: Seq<char>,
    object: Seq<char>,
)
    requires
        handler is ReadObject,
        spec_param(req, "bucket_name"@) == Some(bucket),
        spec_param(req, "object_name"@) == Some(object),
        world.store.has_object(bucket, object),
        world.store.object(bucket, object).len() <= u64::MAX,
    ensures
        ({
            let after = spec_deal(handler, req, HandlerEventView::Request, world, 2);
            let bytes = world.store.object(bucket, object);
            &&& after.answered
            &&& after.response == spec_object_head(bytes.len())
            &&& after.payload == bytes
            &&& after.world.store == world.store
            &&& after.world.body == world.body
        }),
{
    reveal_with_fuel(spec_deal, 3);
    let bytes = world.store.object(bucket, object);
    assert(bytes.take(bytes.len() as int) =~= bytes);
}

/// An object that is sent for is answered with `404` where there is none of its name.
pub proof fn lemma_send_missing_object(
    handler: Handler,
    req: HttpReqView,
    world: World,
    bucket: Seq<char>,
    object: Seq<char>,
)
    requires
        handler is ReadObject,
        spec_param(req, "bucket_name"@) == Some(bucket),
        spec_param(req, "object_name"@) == Some(object),
        !world.store.has_object(bucket, object),
    ensures
        ({
            let after = spec_deal(handler, req, HandlerEventView::Request, world, 2);
            &&& after.answered
            &&& after.response == NOT_FOUND@
            &&& after.world == world
        }),
{
    reveal_with_fuel(spec_deal, 3);
}

/// An object comes back as it was sent: when an object of `size` bytes has been stored and
/// is then sent for, the head that comes back declares `size` bytes, and the bytes that
/// follow it are the `size` bytes that were stored.
pub proof fn lemma_round_trip(
    store: Handler,
    send: Handler,
    upload: HttpReqView,
    download: HttpReqView,
    world: World,
    bucket: Seq<char>,
    object: Seq<char>,
    size: nat,
)
    requires
        store is CreateObject,
        send is ReadObject,
        spec_param(upload, "bucket_name"@) == Some(bucket),
        spec_param(upload, "object_name"@) == Some(object),
        spec_content_length(upload) == Some(size),
        spec_param(download, "bucket_name"@) == Some(bucket),
        spec_param(download, "object_name"@) == Some(object),
        world.store.has_bucket(bucket),
        size <= world.body.len(),
    ensures
        ({
            let stored = spec_deal(store, upload, HandlerEventView::Request, world, 3);
            let sent = spec_deal(send, download, HandlerEventView::Request, stored.world, 2);
            &&& stored.response == OK_RESPONSE@
            &&& sent.response == spec_object_head(size)
            &&& sent.payload == world.body.take(size as int)
            &&& sent.payload.len() == size
        }),
{
    lemma_store_object(store, upload, world, bucket, object, size);
    let stored = spec_deal(store, upload, HandlerEventView::Request, world, 3);
    let payload = world.body.take(size as int);
    assert(stored.world.store.has_object(bucket, object));
    assert(stored.world.store.object(bucket, object) == payload);
    lemma_send_object(send, download, stored.world, bucket, object);
}

/// Creating a bucket once or twice comes to the same: both requests are answered with
/// `200`, and the second leaves the storage as the first left it.
pub proof fn lemma_create_bucket_twice(
    handler: Handler,
    req: HttpReqView,
    world: World,
    bucket: Seq<char>,
)
    requires
        handler is BucketCreate,
        spec_param(req, "bucket_name"@) == Some(bucket),
    ensures
        ({
            let once = spec_deal(handler, req, HandlerEventView::Request, world, 3);
            let twice = spec_deal(handler, req, HandlerEventView::Request, once.world, 3);
            &&& once.response == OK_RESPONSE@
            &&& once.world.store.has_bucket(bucket)
            &&& world.store.has_bucket(bucket) ==> once.world == world
            &&& twice.response == OK_RESPONSE@
            &&& twice.world == once.world
        }),
{
    reveal_with_fuel(spec_deal, 4);
}

/// Deleting a bucket once or twice comes to the same: both requests are answered with
/// `200`, the bucket is gone after the first, and the second leaves the storage as it was.
pub proof fn lemma_delete_bucket_twice(
    handler: Handler,
    req: HttpReqView,
    world: World,
    bucket: Seq<char>,
)
    requires
        handler is BucketDelete,
        spec_param(req, "bucket_name"@) == Some(bucket),
    ensures
        ({
            let once = spec_deal(handler, req, HandlerEventView::Request, world, 2);
            let twice = spec_deal(handler, req, HandlerEventView::Request, once.world, 2);
            &&& once.response == OK_RESPONSE@
            &&& !once.world.store.has_bucket(bucket)
            &&& twice.response == OK_RESPONSE@
            &&& twice.world == once.world
        }),
{
    reveal_with_fuel(spec_deal, 3);
}

/// Asking for a bucket is answered with `200` where it exists and with `404` where it does
/// not, and leaves the storage as it was.
pub proof fn lemma_bucket_exists(
    handler: Handler,
    req: HttpReqView,
    world: World,
    bucket: Seq<char>,
)
    requires
        handler is BucketExists,
        spec_param(req, "bucket_name"@) == Some(bucket),
    ensures
        ({
            let after = spec_deal(handler, req, HandlerEventView::Request, world, 2);
            &&& after.answered
            &&& after.response == if world.store.has_bucket(bucket) {
                OK_RESPONSE@
            } else {
                NOT_FOUND@
            }
            &&& after.world == world
        }),
{
    reveal_with_fuel(spec_deal, 3);
}

/// The life of a bucket: it is created, and found; an object is stored in it, and comes
/// back as it was sent; the bucket is deleted, and found no more. Each of the six requests
/// is answered as it should be, whatever the storage held before.
pub proof fn lemma_life_of_a_bucket(
    handlers: Seq<Handler>,
    bucket_req: HttpReqView,
    upload: HttpReqView,
    download: HttpReqView,
    world: World,
    bucket: Seq<char>,
    object: Seq<char>,
    size: nat,
)
    requires
        handlers.len() == 5,
        handlers[0] is BucketCreate,
        handlers[1] is BucketDelete,
        handlers[2] is BucketExists,
        handlers[3] is ReadObject,
        handlers[4] is CreateObject,
        spec_param(bucket_req, "bucket_name"@) == Some(bucket),
        spec_param(upload, "bucket_name"@) == Some(bucket),
        spec_param(upload, "object_name"@) == Some(object),
        spec_content_length(upload) == Some(size),
        spec_param(download, "bucket_name"@) == Some(bucket),
        spec_param(download, "object_name"@) == Some(object),
        size <= world.body.len(),
    ensures
        ({
            let request = HandlerEventView::Request;
            let created = spec_deal(handlers[0], bucket_req, request, world, 3);
            let found = spec_deal(handlers[2], bucket_req, request, created.world, 2);
            let stored = spec_deal(handlers[4], upload, request, found.world, 3);
            let sent = spec_deal(handlers[3], download, request, stored.world, 2);
            let deleted = spec_deal(handlers[1], bucket_req, request, sent.world, 2);
            let gone = spec_deal(handlers[2], bucket_req, request, deleted.world, 2);
            &&& created.response == OK_RESPONSE@
            &&& found.response == OK_RESPONSE@
            &&& stored.response == OK_RESPONSE@
            &&& sent.response == spec_object_head(size)
            &&& sent.payload == world.body.take(size as int)
            &&& deleted.response == OK_RESPONSE@
            &&& gone.response == NOT_FOUND@
        }),
{
    let request = HandlerEventView::Request;
    lemma_create_bucket_twice(handlers[0], bucket_req, world, bucket);
    let created = spec_deal(handlers[0], bucket_req, request, world, 3);
    assert(created.world.body == world.body) by {
        reveal_with_fuel(spec_deal, 4);
    }
    lemma_bucket_exists(handlers[2], bucket_req, created.world, bucket);
    let found = spec_deal(handlers[2], bucket_req, request, created.world, 2);
    lemma_round_trip(handlers[4], handlers[3], upload, download, found.world, bucket, object, size);
    lemma_store_object(handlers[4], upload, found.world, bucket, object, size);
    let stored = spec_deal(handlers[4], upload, request, found.world, 3);
    lemma_send_object(handlers[3], download, stored.world, bucket, object);
    let sent = spec_deal(handlers[3], download, request, stored.world, 2);
    lemma_delete_bucket_twice(handlers[1], bucket_req, sent.world, bucket);
    let deleted = spec_deal(handlers[1], bucket_req, request, sent.world, 2);
    lemma_bucket_exists(handlers[2], bucket_req, deleted.world, bucket);
}

} // verus!
