//! What the application settles before its first window.

use vstd::prelude::*;

use crate::paths::{join_path, joined_path};
use crate::text::{cat2, texts};

verus! {

pub const GSK_RENDERER_ENV: &'static str = "GSK_RENDERER";

pub const GSK_GL_RENDERER: &'static str = "gl";

pub const GSK_NGL_RENDERER: &'static str = "ngl";

/// The name of the toolkit's unified GL renderer: version 4.18 dropped the old GL renderer and
/// gave its name to the unified one.
pub fn gl_renderer_name(gtk_major: u32, gtk_minor: u32) -> (r: &'static str)
    ensures
        r@ == (if gtk_major > 4 || (gtk_major == 4 && gtk_minor >= 18) {
            GSK_GL_RENDERER@
        } else {
            GSK_NGL_RENDERER@
        }),
        gtk_major == 4 && gtk_minor < 18 ==> r@ == "ngl"@,
        gtk_major == 4 && gtk_minor >= 18 ==> r@ == "gl"@,
        gtk_major < 4 ==> r@ == "ngl"@,
        gtk_major > 4 ==> r@ == "gl"@,
{
    if gtk_major > 4 || (gtk_major == 4 && gtk_minor >= 18) {
        GSK_GL_RENDERER
    } else {
        GSK_NGL_RENDERER
    }
}

/// Where the application's icon may be, in the order of preference.
pub open spec fn icon_places(exe_dir: Option<Seq<char>>) -> Seq<Seq<char>> {
    let installed = "/opt/predator-sense/resources/logo-128.png"@;
    match exe_dir {
        Some(dir) => seq![
            joined_path(dir, "resources/logo-128.png"@),
            joined_path(dir, "../resources/logo-128.png"@),
            joined_path(dir, "../../resources/logo-128.png"@),
            installed,
        ],
        None => seq![installed],
    }
}

/// Where the application's icon may be, in the order of preference; the first that exists is
/// used.
pub fn icon_candidates(exe_dir: &Option<String>) -> (r: Vec<String>)
    ensures
        texts(r@) == icon_places(crate::text::text_of(*exe_dir)),
{
    let mut out: Vec<String> = Vec::new();
    if let Some(dir) = exe_dir {
        out.push(join_path(dir.as_str(), "resources/logo-128.png"));
        out.push(join_path(dir.as_str(), "../resources/logo-128.png"));
        out.push(join_path(dir.as_str(), "../../resources/logo-128.png"));
    }
    out.push("/opt/predator-sense/resources/logo-128.png".to_owned());
    assert(texts(out@) =~= icon_places(crate::text::text_of(*exe_dir)));
    out
}

/// Where a resource may be, in the order of preference.
pub open spec fn resource_places(name: Seq<char>, exe_dir: Option<Seq<char>>) -> Seq<Seq<char>> {
    let installed = "/opt/predator-sense/resources/"@ + name;
    match exe_dir {
        Some(dir) => seq![
            joined_path(joined_path(dir, "../../resources"@), name),
            joined_path(joined_path(dir, "resources"@), name),
            installed,
        ],
        None => seq![installed],
    }
}

/// Where a resource may be, in the order of preference; the first that exists is used.
pub fn resource_candidates(name: &str, exe_dir: &Option<String>) -> (r: Vec<String>)
    ensures
        texts(r@) == resource_places(name@, crate::text::text_of(*exe_dir)),
{
    let mut out: Vec<String> = Vec::new();
    if let Some(dir) = exe_dir {
        out.push(join_path(join_path(dir.as_str(), "../../resources").as_str(), name));
        out.push(join_path(join_path(dir.as_str(), "resources").as_str(), name));
    }
    out.push(cat2("/opt/predator-sense/resources/", name));
    assert(texts(out@) =~= resource_places(name@, crate::text::text_of(*exe_dir)));
    out
}

/// An icon or a resource next to the program is preferred to the one that is installed, which
/// is always the last resort.
pub proof fn law_installed_files_are_the_last_resort(name: Seq<char>, dir: Seq<char>)
    ensures
        icon_places(None) == seq!["/opt/predator-sense/resources/logo-128.png"@],
        icon_places(Some(dir)).last() == "/opt/predator-sense/resources/logo-128.png"@,
        icon_places(Some(dir))[0] == joined_path(dir, "resources/logo-128.png"@),
        icon_places(Some(dir))[1] == joined_path(dir, "../resources/logo-128.png"@),
        icon_places(Some(dir))[2] == joined_path(dir, "../../resources/logo-128.png"@),
        resource_places(name, None) == seq!["/opt/predator-sense/resources/"@ + name],
        resource_places(name, Some(dir)).last() == "/opt/predator-sense/resources/"@ + name,
        resource_places(name, Some(dir))[0] == joined_path(
            joined_path(dir, "../../resources"@),
            name,
        ),
        resource_places(name, Some(dir))[1] == joined_path(joined_path(dir, "resources"@), name),
        GSK_RENDERER_ENV@ == "GSK_RENDERER"@,
{
}

} // verus!
