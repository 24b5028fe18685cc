use std::path::{Path, PathBuf};
use vstd::prelude::*;

verus! {

#[verifier::external_type_specification]
#[verifier::external_body]
pub struct ExPath(Path);

#[verifier::external_type_specification]
#[verifier::external_body]
pub struct ExPathBuf(PathBuf);

/// The output format of a static site generator: how headers, front matter, links to
/// source locations and references are written, and where content goes.
pub trait Renderer {
    fn render_header(&self, content: &str, level: usize) -> String;

    fn render_front_matter(&self, title: Option<&str>) -> String;

    fn render_source_location_link(
        &self,
        source_file: &Path,
        range: Option<(usize, usize)>,
    ) -> String;

    fn render_reference(&self, target: String, display_text: String) -> String;

    /// Where content is placed; this depends on the generator, as some put content in a
    /// folder of their own at the site root.
    fn content_path(&self) -> Option<PathBuf>;

    fn index_file(&self, title: Option<String>) -> Option<(PathBuf, String)>;
}

impl<T: Renderer + ?Sized> Renderer for &T {
    fn render_header(&self, content: &str, level: usize) -> String {
        (**self).render_header(content, level)
    }

    fn render_reference(&self, target: String, display_text: String) -> String {
        (**self).render_reference(target, display_text)
    }

    fn render_front_matter(&self, title: Option<&str>) -> String {
        (**self).render_front_matter(title)
    }

    fn content_path(&self) -> Option<PathBuf> {
        (**self).content_path()
    }

    fn index_file(&self, title: Option<String>) -> Option<(PathBuf, String)> {
        (**self).index_file(title)
    }

    fn render_source_location_link(
        &self,
        source_file: &Path,
        range: Option<(usize, usize)>,
    ) -> String {
        (**self).render_source_location_link(source_file, range)
    }
}

impl Renderer for Box<dyn Renderer> {
    fn render_header(&self, content: &str, level: usize) -> String {
        (**self).render_header(content, level)
    }

    fn render_front_matter(&self, title: Option<&str>) -> String {
        (**self).render_front_matter(title)
    }

    fn render_reference(&self, target: String, display_text: String) -> String {
        (**self).render_reference(target, display_text)
    }

    fn content_path(&self) -> Option<PathBuf> {
        (**self).content_path()
    }

    fn render_source_location_link(
        &self,
        source_file: &Path,
        range: Option<(usize, usize)>,
    ) -> String {
        (**self).render_source_location_link(source_file, range)
    }

    fn index_file(&self, title: Option<String>) -> Option<(PathBuf, String)> {
        (**self).index_file(title)
    }
}

} // verus!
