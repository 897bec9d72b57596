//! Relative filesystem paths as ordered lists of components, and the
//! extension-append policy used for derived cache filenames.

use vstd::prelude::*;

verus! {

/// A filesystem-relative path: an ordered sequence of path components.
/// The view of a path is the sequence of its components' character
/// sequences.
pub struct RelPath {
    pub components: Vec<String>,
}

impl View for RelPath {
    type V = Seq<Seq<char>>;

    open spec fn view(&self) -> Seq<Seq<char>> {
        self.components.deep_view()
    }
}

/// Whether a path component, read as a plain filename, carries an
/// extension: there is a `.` strictly after the first character.  A name
/// whose only `.` is its first character (a hidden file) has none.
pub open spec fn has_extension(name: Seq<char>) -> bool {
    exists|i: int| 0 < i < name.len() && name[i] == '.'
}

/// The extension-append policy on the final path component.  A non-empty
/// extension is appended after a fresh dot, keeping any extension the name
/// already carries as an infix (`x.ts` + `js` gives `x.ts.js`).  An empty
/// extension leaves a name without an extension unchanged, and leaves a
/// bare trailing dot on a name that has one.
pub open spec fn compose_extension(name: Seq<char>, ext: Seq<char>) -> Seq<char> {
    if ext.len() > 0 {
        name + seq!['.'] + ext
    } else if has_extension(name) {
        name + seq!['.']
    } else {
        name
    }
}

/// Copies a list of path components.
pub fn clone_components(v: &Vec<String>) -> (r: Vec<String>)
    ensures
        r.deep_view() == v.deep_view(),
        r@.len() == v@.len(),
{
    let mut r: Vec<String> = Vec::new();
    let mut i: usize = 0;
    while i < v.len()
        invariant
            i <= v@.len(),
            r@.len() == i,
            forall|j: int| 0 <= j < i ==> r@[j]@ == v@[j]@,
        decreases v@.len() - i,
    {
        r.push(v[i].clone());
        i = i + 1;
    }
    assert(r.deep_view() =~= v.deep_view());
    r
}

/// Whether `name` carries an extension (see [`has_extension`]).
fn component_has_extension(name: &str) -> (r: bool)
    ensures
        r == has_extension(name@),
{
    let len = name.unicode_len();
    let mut i: usize = 1;
    while i < len
        invariant
            1 <= i,
            len == name@.len(),
            forall|j: int| 0 < j < i ==> name@[j] != '.',
        decreases len - i,
    {
        if name.get_char(i) == '.' {
            return true;
        }
        i = i + 1;
    }
    false
}

/// Builds the final component of a derived filename from a base component
/// and an extension, following [`compose_extension`].
fn compose_component(name: &String, ext: &str) -> (r: String)
    ensures
        r@ == compose_extension(name@, ext@),
{
    proof {
        reveal_strlit(".");
    }
    if !ext.is_empty() {
        let mut r = name.clone();
        r.append(".");
        r.append(ext);
        assert(r@ =~= name@ + seq!['.'] + ext@);
        r
    } else if component_has_extension(name.as_str()) {
        let mut r = name.clone();
        r.append(".");
        assert(r@ =~= name@ + seq!['.']);
        r
    } else {
        name.clone()
    }
}

impl RelPath {
    /// An empty relative path.
    pub fn empty() -> (r: RelPath)
        ensures
            r@ =~= Seq::<Seq<char>>::empty(),
    {
        RelPath { components: Vec::new() }
    }

    /// Appends one component.
    pub fn push(&mut self, component: String)
        ensures
            final(self)@ == old(self)@.push(component@),
    {
        self.components.push(component);
        assert(self@ =~= old(self)@.push(component@));
    }

    /// The path with the extension-append policy applied to its final
    /// component: every earlier component is kept, and the final one
    /// becomes [`compose_extension`] of itself and `ext`.
    pub fn with_extension(&self, ext: &str) -> (r: RelPath)
        requires
            self@.len() > 0,
        ensures
            r@ == self@.update(self@.len() - 1, compose_extension(self@.last(), ext@)),
    {
        let mut components = clone_components(&self.components);
        let last = components.pop().unwrap();
        let composed = compose_component(&last, ext);
        components.push(composed);
        let r = RelPath { components };
        assert(r@ =~= self@.update(self@.len() - 1, compose_extension(self@.last(), ext@)));
        r
    }
}

/// An absolute directory path: the ordered components below the
/// filesystem root.  A value of this type always stands for an absolute
/// path; the root directory itself is the empty component list.
pub struct AbsPath {
    pub components: Vec<String>,
}

impl View for AbsPath {
    type V = Seq<Seq<char>>;

    open spec fn view(&self) -> Seq<Seq<char>> {
        self.components.deep_view()
    }
}

impl AbsPath {
    /// An absolute path from its components below the root.
    pub fn from_components(components: Vec<String>) -> (r: AbsPath)
        ensures
            r@ == components.deep_view(),
    {
        AbsPath { components }
    }
}

/// For a non-empty extension the policy always appends a dot and the
/// extension, whether or not the base name already carries an extension:
/// a base with none becomes `name.ext`, and a base ending in `.ts` keeps
/// it as an infix, `name.ts.ext`.
pub proof fn lemma_extension_composition(name: Seq<char>, ext: Seq<char>)
    requires
        ext.len() > 0,
    ensures
        compose_extension(name, ext) == name + seq!['.'] + ext,
{
}

} // verus!
