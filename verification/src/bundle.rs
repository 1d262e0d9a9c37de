//! Asset bundles: the template files that a plugin brings with it, by path
//! relative to the project root.

use crate::table::{distinct_keys, has_key, Table};
use vstd::prelude::*;

verus! {

/// A `..` segment begins at offset `at` of `path`.
pub open spec fn parent_segment_at(path: Seq<char>, at: int) -> bool {
    &&& 0 <= at
    &&& at + 2 <= path.len()
    &&& path[at] == '.'
    &&& path[at + 1] == '.'
    &&& (at == 0 || path[at - 1] == '/')
    &&& (at + 2 == path.len() || path[at + 2] == '/')
}

/// `path` can lead out of the project root: it is absolute, or one of its
/// segments is `..`.
pub open spec fn escapes_root(path: Seq<char>) -> bool {
    ||| (path.len() > 0 && path[0] == '/')
    ||| exists|at: int| parent_segment_at(path, at)
}

/// The characters of `text`, for access by index.
fn chars_of(text: &str) -> (chars: Vec<char>)
    ensures
        chars@ == text@,
{
    let mut chars: Vec<char> = Vec::new();
    for c in it: text.chars()
        invariant
            it.seq() == text@,
            chars@ == it.seq().take(it.index()),
    {
        chars.push(c);
    }
    chars
}

/// Can `path` lead out of the project root?
pub fn path_escapes_root(path: &str) -> (escapes: bool)
    ensures
        escapes == escapes_root(path@),
{
    let chars = chars_of(path);
    let len = chars.len();
    if len > 0 && chars[0] == '/' {
        return true;
    }
    if len < 2 {
        return false;
    }
    let mut at: usize = 0;
    while at < len - 1
        invariant
            len == chars@.len(),
            len >= 2,
            chars@ == path@,
            at <= len - 1,
            forall|earlier: int| 0 <= earlier < at ==> !parent_segment_at(path@, earlier),
        decreases len - at,
    {
        if chars[at] == '.' && chars[at + 1] == '.' && (at == 0 || chars[at - 1] == '/') && (at
            + 2 == len || chars[at + 2] == '/') {
            assert(parent_segment_at(path@, at as int));
            return true;
        }
        at += 1;
    }
    false
}

/// Why an asset was not taken into a bundle.
#[derive(Debug, Clone, Copy, PartialEq, Eq)]
pub enum BundleError {
    /// The path is absolute or has a `..` segment.
    EscapesRoot,
    /// The bundle holds an asset under that path already.
    DuplicatePath,
}

/// What a bundle may hold: each path once, and none that leads out of the
/// project root.
pub open spec fn sound_assets(assets: Seq<(Seq<char>, Seq<u8>)>) -> bool {
    &&& distinct_keys(assets)
    &&& forall|i: int| 0 <= i < assets.len() ==> !escapes_root((#[trigger] assets[i]).0)
}

/// A named set of template files, each under its own relative path. The
/// order of the assets is that of their insertion, and stays.
pub struct AssetBundle {
    name: String,
    assets: Table<Vec<u8>>,
}

impl View for AssetBundle {
    type V = Seq<(Seq<char>, Seq<u8>)>;

    closed spec fn view(&self) -> Seq<(Seq<char>, Seq<u8>)> {
        self.assets.pairs()
    }
}

impl AssetBundle {
    #[verifier::type_invariant]
    spec fn well_formed(&self) -> bool {
        forall|i: int|
            0 <= i < self.assets.pairs().len() ==> !escapes_root(
                (#[trigger] self.assets.pairs()[i]).0,
            )
    }

    /// The bundle's name, as a character sequence.
    pub closed spec fn name_view(&self) -> Seq<char> {
        self.name@
    }

    /// An empty bundle called `name`.
    pub fn new(name: &str) -> (bundle: AssetBundle)
        ensures
            bundle@ == Seq::<(Seq<char>, Seq<u8>)>::empty(),
            bundle.name_view() == name@,
    {
        AssetBundle { name: name.to_owned(), assets: Table::new() }
    }

    /// The bundle's name.
    pub fn name(&self) -> (name: &str)
        ensures
            name@ == self.name_view(),
    {
        self.name.as_str()
    }

    /// The number of assets. What the bundle holds is sound.
    pub fn len(&self) -> (n: usize)
        ensures
            n == self@.len(),
            sound_assets(self@),
    {
        proof {
            use_type_invariant(self);
        }
        self.assets.len()
    }

    /// The asset at `index` in insertion order: its path and its content.
    pub fn get(&self, index: usize) -> (asset: Option<(&String, &Vec<u8>)>)
        ensures
            match asset {
                Some((path, content)) => index < self@.len() && self@[index as int] == (
                    path@,
                    content@,
                ),
                None => index >= self@.len(),
            },
    {
        self.assets.entry(index)
    }

    /// Takes `content` into the bundle under `path`. A path that can lead
    /// out of the project root is refused, and so is one that the bundle
    /// holds already; the bundle then stays as it is.
    pub fn insert(&mut self, path: &str, content: Vec<u8>) -> (result: Result<(), BundleError>)
        ensures
            match result {
                Ok(()) => {
                    &&& !escapes_root(path@)
                    &&& !has_key(old(self)@, path@)
                    &&& final(self)@ == old(self)@.push((path@, content@))
                },
                Err(BundleError::EscapesRoot) => escapes_root(path@) && final(self)@ == old(self)@,
                Err(BundleError::DuplicatePath) => {
                    &&& !escapes_root(path@)
                    &&& has_key(old(self)@, path@)
                    &&& final(self)@ == old(self)@
                },
            },
            final(self).name_view() == old(self).name_view(),
    {
        proof {
            use_type_invariant(&*self);
            self.assets.lemma_view_is_keyed();
        }
        if path_escapes_root(path) {
            return Err(BundleError::EscapesRoot);
        }
        if self.assets.position(path).is_some() {
            return Err(BundleError::DuplicatePath);
        }
        // The table leaves the bundle while it changes, so that the bundle
        // is well formed at every step.
        let mut assets: Table<Vec<u8>> = Table::new();
        core::mem::swap(&mut self.assets, &mut assets);
        assets.put(path, content);
        self.assets = assets;
        Ok(())
    }
}

} // verus!
