//! Resource paths inside the application bundle.
use vstd::prelude::*;

use crate::text::{chars_of, string_push};

verus! {

/// `s` with every character `from` replaced by `to`.
pub open spec fn replace_char(s: Seq<char>, from: char, to: char) -> Seq<char> {
    s.map_values(|c: char| if c == from { to } else { c })
}

/// Appends `s` with every `/` replaced by `_`.
fn push_flattened(out: &mut String, s: &str)
    ensures
        final(out)@ == old(out)@ + replace_char(s@, '/', '_'),
{
    let cs = chars_of(s);
    let mut i: usize = 0;
    while i < cs.len()
        invariant
            i <= cs@.len(),
            cs@ == s@,
            out@ == old(out)@ + replace_char(cs@.take(i as int), '/', '_'),
        decreases cs@.len() - i,
    {
        let c = cs[i];
        let d = if c == '/' {
            '_'
        } else {
            c
        };
        string_push(out, d);
        assert(replace_char(cs@.take(i + 1), '/', '_') =~= replace_char(
            cs@.take(i as int),
            '/',
            '_',
        ).push(d));
        assert(old(out)@ + replace_char(cs@.take(i + 1), '/', '_') =~= (old(out)@ + replace_char(
            cs@.take(i as int),
            '/',
            '_',
        )).push(d));
        i = i + 1;
    }
    assert(cs@.take(cs@.len() as int) =~= cs@);
}

/// The file system of the application: where the bundled resources live.
pub struct FileSystem {
    bundle: String,
}

impl FileSystem {
    /// The directory that holds the bundled resources.
    pub closed spec fn bundle(&self) -> Seq<char> {
        self.bundle@
    }

    /// A file system whose resources live under `bundle`.
    pub fn new(bundle: String) -> (fs: Self)
        ensures
            fs.bundle() == bundle@,
    {
        FileSystem { bundle }
    }

    /// The directory that holds the bundled resources.
    pub fn get_bundle_url(&self) -> (url: &str)
        ensures
            url@ == self.bundle(),
    {
        self.bundle.as_str()
    }

    /// The path of the compiled shader `name` for `suffix` (see
    /// `get_spirv_file_path`).
    pub fn get_shader_path(&self, name: &str, suffix: &str) -> (path: String)
        ensures
            path@ == self.bundle() + "/shader-gen/"@ + replace_char(name@, '/', '_') + "_"@
                + suffix@ + ".spv"@,
    {
        self.get_spirv_file_path(name, suffix)
    }

    /// The path of the SPIR-V file of shader `name` for `suffix`: in the
    /// bundle's `shader-gen` directory, the name flattened by replacing every
    /// `/` with `_`, then `_`, the suffix and `.spv`.
    pub fn get_spirv_file_path(&self, name: &str, suffix: &str) -> (path: String)
        ensures
            path@ == self.bundle() + "/shader-gen/"@ + replace_char(name@, '/', '_') + "_"@
                + suffix@ + ".spv"@,
    {
        let mut p = String::new();
        p.append(self.bundle.as_str());
        p.append("/shader-gen/");
        push_flattened(&mut p, name);
        p.append("_");
        p.append(suffix);
        p.append(".spv");
        p
    }

    /// The path of the bundled texture `name`: in the bundle's `assets`
    /// directory.
    pub fn get_texture_file_path(&self, name: &str) -> (path: String)
        ensures
            path@ == self.bundle() + "/assets/"@ + name@,
    {
        let mut p = String::new();
        p.append(self.bundle.as_str());
        p.append("/assets/");
        p.append(name);
        p
    }
}

} // verus!
