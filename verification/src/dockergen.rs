//! Rendering of the docker scaffolding files from their templates: the
//! placeholder substitutions and the generated environment file.

use vstd::prelude::*;
use crate::text::{replace_all, spec_replace};

verus! {

/// The core image file: the template with every `{{base_image}}`
/// placeholder replaced.
pub fn render_dockerfile_core(template: &str, base_image: &str) -> (r: String)
    ensures
        r@ == spec_replace(template@, "{{base_image}}"@, base_image@),
{
    replace_all(template, "{{base_image}}", base_image)
}

/// The compose file: the template with every `{{service}}` placeholder
/// replaced.
pub fn render_compose(template: &str, service: &str) -> (r: String)
    ensures
        r@ == spec_replace(template@, "{{service}}"@, service@),
{
    replace_all(template, "{{service}}", service)
}

/// The generated environment file: fixed user and group ids.
pub fn render_env() -> (r: String)
    ensures
        r@ == "UID=1000\nGID=1000\n"@,
{
    "UID=1000\nGID=1000\n".to_owned()
}

} // verus!
