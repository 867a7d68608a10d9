//! Geometry import dispatch.
//!
//! Which importer handles a file is decided by its extension alone: `obj`
//! selects the text importer, `gltf` and `glb` the binary importer, and
//! anything else is an unknown format. The embedding program opens and
//! reads the file — an unreadable path is its `UnableToOpenFile`, a parser
//! failure of the binary importer its `UnableToImport` — and hands the
//! bytes to the selected importer.

use vstd::prelude::*;

verus! {

use vstd::string::StringSliceAdditionalSpecFns;

/// Why an import failed.
#[derive(Debug)]
pub enum ImportError {
    /// The path does not exist or cannot be read.
    UnableToOpenFile(String),
    /// The extension selects no importer.
    UnknownFileFormat(String),
    /// The content could not be parsed.
    UnableToImport(String),
}

impl ImportError {
    /// A short description of the error kind.
    pub fn kind_text(&self) -> (r: String) {
        match self {
            ImportError::UnableToOpenFile(_) => "unable to open file".to_owned(),
            ImportError::UnknownFileFormat(_) => "unknown file format".to_owned(),
            ImportError::UnableToImport(_) => "unable to import".to_owned(),
        }
    }
}

/// A supported geometry format.
#[derive(Debug, Clone, Copy, PartialEq, Eq, Structural)]
pub enum FileFormat {
    /// Wavefront OBJ text.
    Obj,
    /// A glTF container, text or binary.
    Gltf,
}

/// Whether position `d` of `p` holds the extension dot: a dot inside the
/// last path component, not its first byte, with no later dot.
pub open spec fn is_ext_dot(p: Seq<u8>, d: int) -> bool {
    &&& 0 < d < p.len()
    &&& p[d] == 46
    &&& p[d - 1] != 47
    &&& forall|j: int| d < j < p.len() ==> p[j] != 46 && p[j] != 47
}

/// The extension the OBJ importer answers to.
pub open spec fn obj_ext() -> Seq<u8> {
    seq![111u8, 98u8, 106u8]
}

/// The extensions the glTF importer answers to.
pub open spec fn gltf_ext() -> Seq<u8> {
    seq![103u8, 108u8, 116u8, 102u8]
}

/// The binary glTF extension.
pub open spec fn glb_ext() -> Seq<u8> {
    seq![103u8, 108u8, 98u8]
}

/// Select the importer for a path by its extension: `obj` is the text
/// importer, `gltf` and `glb` the binary one; a path without an extension
/// or with any other extension selects none.
pub fn select_format(path: &str) -> (r: Result<FileFormat, ImportError>)
    ensures
        forall|d: int|
            is_ext_dot(path.spec_bytes(), d) ==> {
                let e = path.spec_bytes().subrange(d + 1, path.spec_bytes().len() as int);
                if e == obj_ext() {
                    r == Ok::<FileFormat, ImportError>(FileFormat::Obj)
                } else if e == gltf_ext() || e == glb_ext() {
                    r == Ok::<FileFormat, ImportError>(FileFormat::Gltf)
                } else {
                    r is Err
                }
            },
        (forall|d: int| !is_ext_dot(path.spec_bytes(), d)) ==> r is Err,
{
    let b = path.as_bytes();
    let mut i: usize = b.len();
    let mut dot: Option<usize> = None;
    while i > 0
        invariant
            i <= b@.len(),
            b@ == path.spec_bytes(),
            match dot {
                Some(d) => is_ext_dot(b@, d as int) && i <= d,
                None => forall|j: int| i <= j < b@.len() ==> b@[j] != 46 && b@[j] != 47,
            },
        decreases i,
    {
        i = i - 1;
        if dot.is_none() {
            if b[i] == 47 {
                return Err(ImportError::UnknownFileFormat(path.to_owned()));
            }
            if b[i] == 46 {
                if i == 0 || b[i - 1] == 47 {
                    return Err(ImportError::UnknownFileFormat(path.to_owned()));
                }
                dot = Some(i);
            }
        }
    }
    match dot {
        None => Err(ImportError::UnknownFileFormat(path.to_owned())),
        Some(d) => {
            let ghost e = b@.subrange(d as int + 1, b@.len() as int);
            proof {
                // only one position can be the extension dot
                assert forall|d2: int| is_ext_dot(b@, d2) implies d2 == d as int by {
                    if d2 < d {
                        assert(b@[d as int] == 46);
                    } else if d2 > d {
                        assert(b@[d2] == 46);
                    }
                }
            }
            let n = b.len() - d - 1;
            if n == 3 && b[d + 1] == 111 && b[d + 2] == 98 && b[d + 3] == 106 {
                proof {
                    assert(e =~= obj_ext());
                }
                Ok(FileFormat::Obj)
            } else if n == 4 && b[d + 1] == 103 && b[d + 2] == 108 && b[d + 3] == 116 && b[d + 4]
                == 102 {
                proof {
                    assert(e =~= gltf_ext());
                }
                Ok(FileFormat::Gltf)
            } else if n == 3 && b[d + 1] == 103 && b[d + 2] == 108 && b[d + 3] == 98 {
                proof {
                    assert(e =~= glb_ext());
                }
                Ok(FileFormat::Gltf)
            } else {
                proof {
                    if e == obj_ext() {
                        assert(e.len() == 3 && e[0] == 111 && e[1] == 98 && e[2] == 106);
                        assert(b@[d as int + 1] == e[0]);
                        assert(b@[d as int + 2] == e[1]);
                        assert(b@[d as int + 3] == e[2]);
                    }
                    if e == gltf_ext() {
                        assert(e.len() == 4 && e[0] == 103 && e[1] == 108 && e[2] == 116 && e[3]
                            == 102);
                        assert(b@[d as int + 1] == e[0]);
                        assert(b@[d as int + 2] == e[1]);
                        assert(b@[d as int + 3] == e[2]);
                        assert(b@[d as int + 4] == e[3]);
                    }
                    if e == glb_ext() {
                        assert(e.len() == 3 && e[0] == 103 && e[1] == 108 && e[2] == 98);
                        assert(b@[d as int + 1] == e[0]);
                        assert(b@[d as int + 2] == e[1]);
                        assert(b@[d as int + 3] == e[2]);
                    }
                }
                Err(ImportError::UnknownFileFormat(path.to_owned()))
            }
        },
    }
}

} // verus!
