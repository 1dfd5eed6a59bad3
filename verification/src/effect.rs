//! What the library asks of its host, what the host answers, and a model of
//! the world in which the answers are the expected ones.

use vstd::prelude::*;
use crate::reference::Reference;

verus! {

/// One thing for the host to do on the disk or at the registry.
#[derive(Debug, PartialEq, Eq)]
pub enum Request {
    /// Read the whole file at `path`.
    ReadFile { path: String },
    /// Create the directory at `path` and every missing directory above it.
    CreateDirAll { path: String },
    /// Write `bytes` to the file at `path`, in place of what it held.
    WriteFile { path: String, bytes: Vec<u8> },
    /// Move the file at `from` to `to` in one step, in place of what `to` held.
    Rename { from: String, to: String },
    /// Fetch the artifact behind `reference` from the registry.
    Fetch { reference: Reference },
    /// Store `bytes` in the registry under `reference`.
    Upload { reference: Reference, bytes: Vec<u8> },
}

/// What a [`Request`] holds.
pub enum RequestView {
    ReadFile { path: Seq<char> },
    CreateDirAll { path: Seq<char> },
    WriteFile { path: Seq<char>, bytes: Seq<u8> },
    Rename { from: Seq<char>, to: Seq<char> },
    Fetch { reference: Seq<char> },
    Upload { reference: Seq<char>, bytes: Seq<u8> },
}

impl View for Request {
    type V = RequestView;

    open spec fn view(&self) -> RequestView {
        match self {
            Request::ReadFile { path } => RequestView::ReadFile { path: path@ },
            Request::CreateDirAll { path } => RequestView::CreateDirAll { path: path@ },
            Request::WriteFile { path, bytes } => RequestView::WriteFile {
                path: path@,
                bytes: bytes@,
            },
            Request::Rename { from, to } => RequestView::Rename { from: from@, to: to@ },
            Request::Fetch { reference } => RequestView::Fetch { reference: reference@ },
            Request::Upload { reference, bytes } => RequestView::Upload {
                reference: reference@,
                bytes: bytes@,
            },
        }
    }
}

impl RequestView {
    /// Whether the request goes to the registry.
    pub open spec fn is_remote(self) -> bool {
        self is Fetch || self is Upload
    }
}

impl Request {
    /// Whether the request goes to the registry rather than to the disk.
    pub fn is_remote(&self) -> (remote: bool)
        ensures
            remote == self@.is_remote(),
    {
        match self {
            Request::Fetch { .. } => true,
            Request::Upload { .. } => true,
            _ => false,
        }
    }
}

/// What the host found when it did what a [`Request`] asked.
#[derive(Debug, PartialEq, Eq)]
pub enum Response {
    /// The request was carried out and there is nothing to hand back.
    Done,
    /// The bytes that were read or fetched.
    Bytes(Vec<u8>),
    /// There is no file at the path.
    Missing,
    /// The disk refused the operation.
    Failed,
    /// The registry could not be reached.
    Unreachable,
    /// The registry does not hold the reference.
    NotFound,
    /// The registry refused the credentials.
    AuthRejected,
    /// The registry checked the content and refused it.
    PayloadRejected,
}

/// What a [`Response`] holds.
pub enum ResponseView {
    Done,
    Bytes(Seq<u8>),
    Missing,
    Failed,
    Unreachable,
    NotFound,
    AuthRejected,
    PayloadRejected,
}

impl View for Response {
    type V = ResponseView;

    open spec fn view(&self) -> ResponseView {
        match self {
            Response::Done => ResponseView::Done,
            Response::Bytes(bytes) => ResponseView::Bytes(bytes@),
            Response::Missing => ResponseView::Missing,
            Response::Failed => ResponseView::Failed,
            Response::Unreachable => ResponseView::Unreachable,
            Response::NotFound => ResponseView::NotFound,
            Response::AuthRejected => ResponseView::AuthRejected,
            Response::PayloadRejected => ResponseView::PayloadRejected,
        }
    }
}

/// A disk and a registry that do what they are asked: what was written is
/// what is read, and what was uploaded is what is fetched.
pub struct World {
    /// The files on the disk, by path.
    pub files: Map<Seq<char>, Seq<u8>>,
    /// The artifacts in the registry, by reference.
    pub registry: Map<Seq<char>, Seq<u8>>,
}

impl World {
    /// What the file at `path` holds, if there is one.
    pub open spec fn read(self, path: Seq<char>) -> Option<Seq<u8>> {
        if self.files.contains_key(path) {
            Some(self.files[path])
        } else {
            None
        }
    }

    /// The answer to `request` in this world.
    pub open spec fn answer(self, request: RequestView) -> ResponseView {
        match request {
            RequestView::ReadFile { path } => if self.files.contains_key(path) {
                ResponseView::Bytes(self.files[path])
            } else {
                ResponseView::Missing
            },
            RequestView::CreateDirAll { path } => ResponseView::Done,
            RequestView::WriteFile { path, bytes } => ResponseView::Done,
            RequestView::Rename { from, to } => if self.files.contains_key(from) {
                ResponseView::Done
            } else {
                ResponseView::Failed
            },
            RequestView::Fetch { reference } => if self.registry.contains_key(reference) {
                ResponseView::Bytes(self.registry[reference])
            } else {
                ResponseView::NotFound
            },
            RequestView::Upload { reference, bytes } => ResponseView::Done,
        }
    }

    /// The world after `request` has been carried out.
    pub open spec fn perform(self, request: RequestView) -> World {
        match request {
            RequestView::WriteFile { path, bytes } => World {
                files: self.files.insert(path, bytes),
                ..self
            },
            RequestView::Rename { from, to } => if self.files.contains_key(from) {
                World { files: self.files.remove(from).insert(to, self.files[from]), ..self }
            } else {
                self
            },
            RequestView::Upload { reference, bytes } => World {
                registry: self.registry.insert(reference, bytes),
                ..self
            },
            _ => self,
        }
    }

    /// Whether `after` is a world that an interruption in the middle of
    /// `request` can leave behind.
    ///
    /// A write that is cut short leaves anything at all in the file it was
    /// writing, and nothing else changed. A rename happens or does not. An
    /// upload that is cut short leaves the disk as it was.
    pub open spec fn may_be_left_by(self, request: RequestView, after: World) -> bool {
        match request {
            RequestView::WriteFile { path, bytes } => {
                &&& after.registry == self.registry
                &&& forall|other: Seq<char>| other != path ==> #[trigger] after.read(other) == self.read(other)
            },
            RequestView::Upload { reference, bytes } => after.files == self.files,
            _ => after == self || after == self.perform(request),
        }
    }
}

/// What bytes, or which failure, a result holds.
pub open spec fn bytes_of(result: Result<Vec<u8>, crate::error::CommandError>) -> Result<
    Seq<u8>,
    crate::error::CommandError,
> {
    match result {
        Ok(bytes) => Ok(bytes@),
        Err(e) => Err(e),
    }
}

} // verus!
