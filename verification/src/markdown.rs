//! Markdown pages: finding the images a document refers to and rewriting
//! their locations. Parsing and rendering are pulldown-cmark's.
use pulldown_cmark::{CowStr, Event, Options, Parser, Tag};
use pulldown_cmark_to_cmark::cmark;
use vstd::prelude::*;
use crate::svg::char_seqs;
use crate::text::{chars_of, starts_with, starts_with_exec};

verus! {

/// The destination URLs of the images that pulldown-cmark finds in `md`
/// (parsed with default options), in document order.
pub uninterp spec fn markdown_image_urls(md: Seq<char>) -> Seq<Seq<char>>;

/// `md` parsed by pulldown-cmark and written back as CommonMark by
/// pulldown-cmark-to-cmark, with the destination of the `i`-th image replaced
/// by `urls[i]`.
pub uninterp spec fn markdown_with_image_urls(md: Seq<char>, urls: Seq<Seq<char>>) -> Seq<char>;

/// Collects the destination URLs of the image events of
/// `pulldown_cmark::Parser::new(md)`. Trusted: the contract claims that they
/// are `markdown_image_urls(md)`, a function of `md` alone.
#[verifier::external_body]
fn parse_image_urls(md: &str) -> (res: Vec<String>)
    ensures
        char_seqs(res@) == markdown_image_urls(md@),
{
    let mut urls = Vec::new();
    for event in Parser::new(md) {
        if let Event::Start(Tag::Image { dest_url, .. }) = event {
            urls.push(dest_url.to_string());
        }
    }
    urls
}

/// Parses `md` with `pulldown_cmark::Parser::new`, gives the image events
/// their new destinations in order, and renders the events with
/// `pulldown_cmark_to_cmark::cmark`. What `cmark` wrote is returned also when
/// it reports an error. Trusted: the contract claims that the text is
/// `markdown_with_image_urls(md, urls)`, a function of its arguments alone.
#[verifier::external_body]
fn render_with_image_urls(md: &str, urls: &Vec<String>) -> (res: String)
    requires
        urls@.len() == markdown_image_urls(md@).len(),
    ensures
        res@ == markdown_with_image_urls(md@, char_seqs(urls@)),
{
    let mut next = urls.iter();
    let events: Vec<Event> = Parser::new(md).map(|e| match e {
        Event::Start(Tag::Image { link_type, dest_url, title, id }) => Event::Start(Tag::Image {
            link_type, dest_url: next.next().map_or(dest_url, |u| CowStr::from(u.clone())), title, id,
        }),
        other => other,
    }).collect();
    let mut buf = String::new();
    let _ = cmark(events.iter(), &mut buf, Options::empty());
    buf
}

/// The images a Markdown document refers to, in document order.
pub fn markdown_image_references(md: &str) -> (res: Vec<String>)
    ensures
        char_seqs(res@) == markdown_image_urls(md@),
{
    parse_image_urls(md)
}

/// An image location that is fetched rather than copied: a web address or an inline `data:` URL.
pub open spec fn is_remote_url(url: Seq<char>) -> bool {
    starts_with(url, "http://"@) || starts_with(url, "https://"@) || starts_with(url, "data:"@)
}

/// Where the file behind an image reference is looked for: `None` for a remote
/// URL; else the reference itself when absolute, or joined to the Markdown
/// file's folder.
pub open spec fn dependency_path(url: Seq<char>, md_dir: Seq<char>) -> Option<Seq<char>> {
    if is_remote_url(url) {
        None
    } else if crate::paths::is_absolute_path(url) {
        Some(url)
    } else {
        Some(crate::paths::joined(md_dir, url))
    }
}

/// The file behind an image reference of a Markdown file in `md_dir`, or
/// `None` when the reference is remote and stays as it is.
pub fn image_dependency_path(url: &str, md_dir: &str) -> (res: Option<String>)
    ensures
        res matches Some(p) ==> dependency_path(url@, md_dir@) == Some(p@),
        res is None ==> dependency_path(url@, md_dir@) is None,
{
    let u = chars_of(url);
    let http = chars_of("http://");
    let https = chars_of("https://");
    let data = chars_of("data:");
    if starts_with_exec(&u, &http) || starts_with_exec(&u, &https) || starts_with_exec(&u, &data) {
        None
    } else if crate::paths::path_is_absolute(url) {
        Some(String::from_str(url))
    } else {
        Some(crate::paths::path_join(md_dir, url))
    }
}

/// Where an image reference points once its file has been copied next to the
/// rewritten document: a local file that exists is referred to by its path
/// (canonical when it has one) relative to the Markdown file's folder; a
/// remote URL, or a file that does not exist, is kept as it is.
pub open spec fn copied_image_url(
    url: Seq<char>,
    md_dir: Seq<char>,
    exists: bool,
    canonical: Option<Seq<char>>,
) -> Seq<char> {
    match dependency_path(url, md_dir) {
        Some(dep) => if exists {
            crate::paths::relative_path(
                match canonical {
                    Some(c) => c,
                    None => dep,
                },
                md_dir,
            )
        } else {
            url
        },
        None => url,
    }
}

/// The new location of an image reference of a Markdown file in `md_dir`.
/// `exists` tells whether `image_dependency_path(url, md_dir)` names an
/// existing file, and `canonical` is that file's canonical path, when
/// canonicalizing it worked.
pub fn copied_image_reference(url: &str, md_dir: &str, exists: bool, canonical: Option<String>) -> (res: String)
    ensures
        res@ == copied_image_url(url@, md_dir@, exists, match canonical {
            Some(c) => Some(c@),
            None => None,
        }),
{
    match image_dependency_path(url, md_dir) {
        Some(dep) => if exists {
            let path = match canonical {
                Some(c) => c,
                None => dep,
            };
            crate::paths::make_relative_path(path.as_str(), md_dir)
        } else {
            String::from_str(url)
        },
        None => String::from_str(url),
    }
}

/// The Markdown document with its images pointed at `new_urls` (the `i`-th
/// image at `new_urls[i]`), or `None` when the number of new locations is not
/// the number of images.
pub fn rewrite_markdown_images(md: &str, new_urls: &Vec<String>) -> (res: Option<String>)
    ensures
        new_urls@.len() == markdown_image_urls(md@).len() ==> (res matches Some(r) && r@
            == markdown_with_image_urls(md@, char_seqs(new_urls@))),
        new_urls@.len() != markdown_image_urls(md@).len() ==> res is None,
{
    let current = parse_image_urls(md);
    assert(char_seqs(current@).len() == current@.len());
    if current.len() == new_urls.len() {
        Some(render_with_image_urls(md, new_urls))
    } else {
        None
    }
}

} // verus!
