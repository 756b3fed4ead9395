//! The compile command of a mod: the sources and include paths that clang
//! is run on, and where the objects and the library go.
use vstd::prelude::*;

verus! {

/// What the NDK's clang is run on; paths are held as strings.
pub struct CompileCommand<'a> {
    source_files: Vec<String>,
    include_paths: Vec<String>,
    output_path: String,
    ndk_path: &'a str,
    obj_path: &'a str,
    target: &'a str,
}

impl<'a> CompileCommand<'a> {
    pub closed spec fn sources(&self) -> Seq<Seq<char>> {
        self.source_files@.map_values(|p: String| p@)
    }

    pub closed spec fn includes(&self) -> Seq<Seq<char>> {
        self.include_paths@.map_values(|p: String| p@)
    }

    pub closed spec fn output(&self) -> Seq<char> {
        self.output_path@
    }

    pub closed spec fn ndk(&self) -> Seq<char> {
        self.ndk_path@
    }

    pub closed spec fn obj(&self) -> Seq<char> {
        self.obj_path@
    }

    pub closed spec fn target_triple(&self) -> Seq<char> {
        self.target@
    }

    /// A command with no sources and no include paths yet.
    pub fn new(ndk_path: &'a str, output_path: String, obj_path: &'a str, target: &'a str) -> (r: Self)
        ensures
            r.sources() == Seq::<Seq<char>>::empty(),
            r.includes() == Seq::<Seq<char>>::empty(),
            r.output() == output_path@,
            r.ndk() == ndk_path@,
            r.obj() == obj_path@,
            r.target_triple() == target@,
    {
        let r = Self {
            source_files: Vec::new(),
            include_paths: Vec::new(),
            output_path,
            ndk_path,
            obj_path,
            target,
        };
        assert(r.sources() =~= Seq::<Seq<char>>::empty());
        assert(r.includes() =~= Seq::<Seq<char>>::empty());
        r
    }

    /// Adds a source file to compile.
    pub fn add_source(&mut self, path: String)
        ensures
            final(self).sources() == old(self).sources().push(path@),
            final(self).includes() == old(self).includes(),
            final(self).output() == old(self).output(),
            final(self).ndk() == old(self).ndk(),
            final(self).obj() == old(self).obj(),
            final(self).target_triple() == old(self).target_triple(),
    {
        self.source_files.push(path);
        assert(self.sources() =~= old(self).sources().push(path@));
    }

    /// Adds a directory to search for headers.
    pub fn add_include_path(&mut self, path: String)
        ensures
            final(self).includes() == old(self).includes().push(path@),
            final(self).sources() == old(self).sources(),
            final(self).output() == old(self).output(),
            final(self).ndk() == old(self).ndk(),
            final(self).obj() == old(self).obj(),
            final(self).target_triple() == old(self).target_triple(),
    {
        self.include_paths.push(path);
        assert(self.includes() =~= old(self).includes().push(path@));
    }

    pub fn source_files(&self) -> (r: &Vec<String>)
        ensures
            r@.map_values(|p: String| p@) == self.sources(),
    {
        &self.source_files
    }

    pub fn include_paths(&self) -> (r: &Vec<String>)
        ensures
            r@.map_values(|p: String| p@) == self.includes(),
    {
        &self.include_paths
    }

    pub fn output_path(&self) -> (r: &str)
        ensures
            r@ == self.output(),
    {
        self.output_path.as_str()
    }

    pub fn ndk_path(&self) -> (r: &'a str)
        ensures
            r@ == self.ndk(),
    {
        self.ndk_path
    }

    pub fn obj_path(&self) -> (r: &'a str)
        ensures
            r@ == self.obj(),
    {
        self.obj_path
    }

    pub fn target(&self) -> (r: &'a str)
        ensures
            r@ == self.target_triple(),
    {
        self.target
    }
}

} // verus!
