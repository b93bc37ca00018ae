use crate::config::ServerConfig;
use crate::generator::Generator;
use crate::paths::{
    add_extension, add_extension_of, extension_of, is_component_prefix, join_of, join_path,
    path_extension, path_starts_with, strip_extension, strip_extension_of,
};
use vstd::prelude::*;

verus! {

// The path resolver. Given a request path, the configuration, the
// generated-output table and what the caller observed of the file system,
// it decides — in this order — ignored path, generated document, redirect
// off the content extension, raw static file, template to render, or
// nothing. It does no I/O itself: the caller performs the four file-system
// probes and the outcome tells it what to serve.

/// What the caller observed of the file system for one request path `p`
/// under the content root: whether the raw file at `p` exists, whether
/// the template source `p` with the content extension added exists,
/// whether `p` is a directory, and whether that directory holds an index
/// template.
pub struct FsProbe {
    pub file_exists: bool,
    pub content_template_exists: bool,
    pub is_dir: bool,
    pub index_template_exists: bool,
}

/// What a request resolves to.
pub enum Outcome {
    /// A generated document, with the request's extension as a content-type
    /// hint; an extension-less request is served as HTML.
    Generated { text: String, ext: Option<String> },
    /// A permanent redirect to the canonical extension-less path.
    Redirect { location: String },
    /// A raw file under the content root, at the held absolute path.
    StaticFile { path: String },
    /// A template source to render with an empty context, at the held path
    /// relative to the content root.
    RenderTemplate { rel_path: String },
    NotFound,
}

/// The mathematical shape of an `Outcome`.
pub enum OutcomeV {
    Generated(Seq<char>, Option<Seq<char>>),
    Redirect(Seq<char>),
    StaticFile(Seq<char>),
    RenderTemplate(Seq<char>),
    NotFound,
}

pub open spec fn outcome_view(o: Outcome) -> OutcomeV {
    match o {
        Outcome::Generated { text, ext } => OutcomeV::Generated(
            text@,
            match ext {
                Some(e) => Some(e@),
                None => None,
            },
        ),
        Outcome::Redirect { location } => OutcomeV::Redirect(location@),
        Outcome::StaticFile { path } => OutcomeV::StaticFile(path@),
        Outcome::RenderTemplate { rel_path } => OutcomeV::RenderTemplate(rel_path@),
        Outcome::NotFound => OutcomeV::NotFound,
    }
}

/// Whether `p` falls under one of the ignored path prefixes.
pub open spec fn ignored(p: Seq<char>, prefixes: Seq<String>) -> bool {
    exists|i: int| 0 <= i < prefixes.len() && is_component_prefix(p, #[trigger] prefixes[i]@)
}

/// A request path with its leading slash taken off.
pub open spec fn request_rel(req: Seq<char>) -> Seq<char> {
    if req.len() > 0 && req[0] == '/' {
        req.subrange(1, req.len() as int)
    } else {
        req
    }
}

/// The whole resolution policy, first match winning: ignored prefixes,
/// the generated-output table, the content-extension redirect, raw files,
/// template sources, a directory's index template, nothing.
pub open spec fn resolve_spec(
    req: Seq<char>,
    config: ServerConfig,
    gen: Map<Seq<char>, Seq<char>>,
    probe: FsProbe,
) -> OutcomeV {
    let p = request_rel(req);
    if ignored(p, config.ignored_paths@) {
        OutcomeV::NotFound
    } else if gen.contains_key(p) {
        OutcomeV::Generated(gen[p], extension_of(p))
    } else {
        match extension_of(p) {
            Some(e) => if e == config.content_ext@ {
                OutcomeV::Redirect("/"@ + strip_extension_of(p))
            } else if probe.file_exists {
                OutcomeV::StaticFile(join_of(config.root_dir@, p))
            } else {
                OutcomeV::NotFound
            },
            None => if probe.content_template_exists {
                OutcomeV::RenderTemplate(add_extension_of(p, config.content_ext@))
            } else if probe.is_dir && probe.index_template_exists {
                OutcomeV::RenderTemplate(join_of(p, config.index@))
            } else {
                OutcomeV::NotFound
            },
        }
    }
}

/// Resolves one request path, exactly as `resolve_spec` decides it.
pub fn resolve(req: &str, config: &ServerConfig, generated: &Generator, probe: &FsProbe) -> (r:
    Outcome)
    ensures
        outcome_view(r) == resolve_spec(req@, *config, generated@, *probe),
{
    let n = req.unicode_len();
    let rel: String = if n > 0 && req.get_char(0) == '/' {
        req.substring_char(1, n).to_owned()
    } else {
        req.to_owned()
    };
    let p = rel.as_str();

    // Ignored prefixes win over everything.
    let np = config.ignored_paths.len();
    let mut i: usize = 0;
    while i < np
        invariant
            i <= np,
            np == config.ignored_paths@.len(),
            p@ == request_rel(req@),
            forall|m: int|
                0 <= m < i ==> !is_component_prefix(p@, #[trigger] config.ignored_paths@[m]@),
        decreases np - i,
    {
        if path_starts_with(p, config.ignored_paths[i].as_str()) {
            return Outcome::NotFound;
        }
        i += 1;
    }

    // A generated document.
    match generated.get(p) {
        Some(text) => {
            return Outcome::Generated { text: text.clone(), ext: path_extension(p) };
        },
        None => {},
    }

    match path_extension(p) {
        Some(e) => {
            // The content extension is never served: redirect to the
            // canonical extension-less path.
            if e == config.content_ext {
                let mut location = "/".to_owned();
                location.append(strip_extension(p).as_str());
                return Outcome::Redirect { location };
            }
            // Any other extension: a raw file under the content root.
            if probe.file_exists {
                return Outcome::StaticFile { path: join_path(config.root_dir.as_str(), p) };
            }
            Outcome::NotFound
        },
        None => {
            // Extension-less: a template source of the same name, then a
            // directory's index template.
            if probe.content_template_exists {
                return Outcome::RenderTemplate {
                    rel_path: add_extension(p, config.content_ext.as_str()),
                };
            }
            if probe.is_dir && probe.index_template_exists {
                return Outcome::RenderTemplate { rel_path: join_path(p, config.index.as_str()) };
            }
            Outcome::NotFound
        },
    }
}

} // verus!
