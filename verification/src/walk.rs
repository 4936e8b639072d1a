//! The directory-manifest walker's pure parts: which entries are
//! ignored, and the rendering options.

use vstd::prelude::*;
use crate::text::spec_has_sub;

verus! {

/// Options of a manifest walk.
#[derive(Clone, Debug)]
pub struct WalkOptions {
    pub max_depth: usize,
    pub with_content: bool,
    pub extensions: Option<Vec<String>>,
    pub ignore_hidden: bool,
}

impl Default for WalkOptions {
    /// Ten levels deep, file contents shown for every extension, hidden
    /// entries ignored.
    fn default() -> (r: WalkOptions)
        ensures
            r.max_depth == 10,
            r.with_content,
            r.extensions is None,
            r.ignore_hidden,
    {
        WalkOptions { max_depth: 10, with_content: true, extensions: None, ignore_hidden: true }
    }
}

/// The entry names and name fragments a manifest walk ignores: version
/// control internals, environment files, caches, build outputs,
/// dependency directories and editor state.
pub fn get_ignore_patterns() -> (r: Vec<String>)
    ensures
        r@.len() == 49,
{
    let mut p: Vec<String> = Vec::new();
    p.push(".DS_Store".to_owned());
    p.push("Thumbs.db".to_owned());
    p.push("nohup.out".to_owned());
    p.push(".cache".to_owned());
    p.push(".git".to_owned());
    p.push(".gitmodules".to_owned());
    p.push(".env".to_owned());
    p.push(".env.local".to_owned());
    p.push(".env.production".to_owned());
    p.push(".env.development".to_owned());
    p.push("__pycache__".to_owned());
    p.push(".venv".to_owned());
    p.push("venv".to_owned());
    p.push(".mypy_cache".to_owned());
    p.push(".pytest_cache".to_owned());
    p.push(".ruff_cache".to_owned());
    p.push(".tox".to_owned());
    p.push("pip-wheel-metadata".to_owned());
    p.push(".ipynb_checkpoints".to_owned());
    p.push("dist".to_owned());
    p.push("build".to_owned());
    p.push(".coverage".to_owned());
    p.push("htmlcov".to_owned());
    p.push("node_modules".to_owned());
    p.push("pnpm-lock.yaml".to_owned());
    p.push("yarn.lock".to_owned());
    p.push("package-lock.json".to_owned());
    p.push(".eslintcache".to_owned());
    p.push(".tsbuildinfo".to_owned());
    p.push(".pnpm-store".to_owned());
    p.push(".turbo".to_owned());
    p.push(".parcel-cache".to_owned());
    p.push(".vite".to_owned());
    p.push(".next".to_owned());
    p.push(".nuxt".to_owned());
    p.push(".svelte-kit".to_owned());
    p.push("storybook-static".to_owned());
    p.push("coverage".to_owned());
    p.push(".nyc_output".to_owned());
    p.push(".vercel".to_owned());
    p.push(".netlify".to_owned());
    p.push(".docusaurus".to_owned());
    p.push("out".to_owned());
    p.push("target".to_owned());
    p.push("Cargo.lock".to_owned());
    p.push(".cargo".to_owned());
    p.push(".lock".to_owned());
    p.push(".vscode".to_owned());
    p.push(".idea".to_owned());
    p
}

/// Whether a directory entry is left out of the manifest: hidden names
/// when hidden entries are ignored, and any name holding an ignore
/// pattern.
pub fn should_ignore(name: &str, ignore_hidden: bool, patterns: &Vec<String>) -> (r: bool)
    ensures
        r == ((ignore_hidden && name@.len() > 0 && name@[0] == '.') || exists|i: int|
            0 <= i < patterns@.len() && spec_has_sub(name@, #[trigger] patterns@[i]@)),
{
    if ignore_hidden && name.unicode_len() > 0 && name.get_char(0) == '.' {
        return true;
    }
    let mut i: usize = 0;
    while i < patterns.len()
        invariant
            i <= patterns@.len(),
            forall|j: int| 0 <= j < i ==> !spec_has_sub(name@, #[trigger] patterns@[j]@),
        decreases patterns@.len() - i,
    {
        if crate::text::contains_sub(name, patterns[i].as_str()) {
            return true;
        }
        i = i + 1;
    }
    false
}

} // verus!
