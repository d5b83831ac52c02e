//! Images of a document.

use vstd::prelude::*;

use crate::num::larger;
use crate::text::{chars_of, same_text, string_of, strings_view};

verus! {

/// The most rows that an image takes.
pub const IMAGE_MAX_ROWS: u16 = 30;

/// A letter of ASCII.
pub open spec fn ascii_letter(c: char) -> bool {
    'a' <= c <= 'z' || 'A' <= c <= 'Z'
}

/// A character of a scheme.
pub open spec fn scheme_char(c: char) -> bool {
    ascii_letter(c) || '0' <= c <= '9' || c == '+' || c == '-' || c == '.'
}

/// Where the first colon is.
pub open spec fn colon_at(s: Seq<char>) -> nat
    decreases s.len(),
{
    if s.len() == 0 || s[0] == ':' {
        0
    } else {
        1 + colon_at(s.drop_first())
    }
}

/// A text that starts with a scheme of more than one character: a letter, then
/// letters, digits, `+`, `-` and `.`.
pub open spec fn has_scheme(src: Seq<char>) -> bool {
    let n = colon_at(src) as int;
    &&& 1 < n < src.len()
    &&& ascii_letter(src[0])
    &&& forall|i: int| 0 < i < n ==> scheme_char(#[trigger] src[i])
}

/// Whether an image is given by a URL. A single letter in front of a colon is a
/// drive.
pub fn is_url(src: &str) -> (yes: bool)
    ensures
        yes == has_scheme(src@),
{
    let chars = chars_of(src);
    let n: usize = chars.len();
    let mut i: usize = 0;
    assert(chars@.skip(0) =~= chars@);
    while i < n && chars[i] != ':'
        invariant
            i <= n,
            n == chars@.len(),
            colon_at(chars@) == i + colon_at(chars@.skip(i as int)),
        decreases n - i,
    {
        assert(chars@.skip(i as int)[0] == chars@[i as int]);
        assert(chars@.skip(i as int).drop_first() =~= chars@.skip(i + 1));
        i += 1;
    }
    assert(i < n ==> chars@.skip(i as int)[0] == ':');
    if i >= n || i <= 1 {
        return false;
    }
    let first = chars[0];
    if !(('a' <= first && first <= 'z') || ('A' <= first && first <= 'Z')) {
        return false;
    }
    let mut k: usize = 1;
    while k < i
        invariant
            1 <= k <= i < n,
            n == chars@.len(),
            chars@ == src@,
            colon_at(chars@) == i,
            forall|j: int| 0 < j < k ==> scheme_char(#[trigger] chars@[j]),
        decreases i - k,
    {
        let c = chars[k];
        if !(('a' <= c && c <= 'z') || ('A' <= c && c <= 'Z') || ('0' <= c && c <= '9') || c == '+'
            || c == '-' || c == '.') {
            assert(!scheme_char(chars@[k as int]));
            return false;
        }
        k += 1;
    }
    true
}

/// A path from the root of the file system.
pub open spec fn absolute(path: Seq<char>) -> bool {
    path.len() > 0 && path[0] == '/'
}

/// A path below a directory.
pub open spec fn joined_path(dir: Seq<char>, path: Seq<char>) -> Seq<char> {
    if absolute(path) {
        path
    } else if dir.len() == 0 || dir.last() == '/' {
        dir + path
    } else {
        dir.push('/') + path
    }
}

/// Resolves an image source against its document's directory.
pub fn resolve_path(src: &str, base_dir: &str) -> (path: String)
    ensures
        path@ == joined_path(base_dir@, src@),
{
    if src.unicode_len() > 0 && src.get_char(0) == '/' {
        return src.to_owned();
    }
    let n: usize = base_dir.unicode_len();
    let mut path = base_dir.to_owned();
    if n > 0 && base_dir.get_char(n - 1) != '/' {
        path.push('/');
    }
    path.append(src);
    path
}

/// An image that was decoded, or could not be.
#[derive(Clone, Copy, Debug, PartialEq, Eq, Structural)]
pub enum ImageState {
    /// Shown in so many rows at a width.
    Ready { rows: u16, width: usize },
    Failed,
}

/// An image of the cache.
pub struct ImageEntry {
    pub path: String,
    pub state: ImageState,
}

/// The images of a document by path: those that were decoded, those that are
/// being decoded, and those to start decoding.
pub struct ImageCache {
    pub entries: Vec<ImageEntry>,
    pub loading: Vec<String>,
    pub pending: Vec<String>,
    pub width: usize,
}

/// The state of an image.
pub open spec fn state_of(entries: Seq<ImageEntry>, path: Seq<char>) -> Option<ImageState>
    decreases entries.len(),
{
    if entries.len() == 0 {
        None
    } else if entries.last().path@ == path {
        Some(entries.last().state)
    } else {
        state_of(entries.drop_last(), path)
    }
}

/// The rows of an image at a width: those that it was fitted into, at least one;
/// one until it is there.
pub open spec fn rows_of(state: Option<ImageState>) -> int {
    match state {
        Some(ImageState::Ready { rows, width }) => larger(rows as int, 1),
        _ => 1,
    }
}

fn holds(paths: &Vec<String>, path: &str) -> (found: Option<usize>)
    ensures
        found is Some <==> strings_view(paths@).contains(path@),
        found matches Some(i) ==> i < paths@.len() && paths@[i as int]@ == path@,
{
    let mut i: usize = 0;
    while i < paths.len()
        invariant
            i <= paths@.len(),
            forall|k: int| 0 <= k < i ==> (#[trigger] paths@[k])@ != path@,
        decreases paths@.len() - i,
    {
        if same_text(paths[i].as_str(), path) {
            assert(strings_view(paths@)[i as int] == path@);
            return Some(i);
        }
        i += 1;
    }
    proof {
        if strings_view(paths@).contains(path@) {
            let k = choose|k: int|
                0 <= k < strings_view(paths@).len() && strings_view(paths@)[k] == path@;
            assert(paths@[k]@ == path@);
        }
    }
    None
}

/// Decoding an image came to an end.
pub enum DecodedImage {
    /// The image was fitted into so many rows; `None` where the terminal cannot
    /// show it.
    Loaded { path: String, rows: Option<u16> },
    Failed { path: String },
}

impl ImageCache {
    /// No images yet.
    pub fn new() -> (cache: ImageCache)
        ensures
            cache.entries@.len() == 0,
            cache.loading@.len() == 0,
            cache.pending@.len() == 0,
            cache.width == 0,
    {
        ImageCache { entries: Vec::new(), loading: Vec::new(), pending: Vec::new(), width: 0 }
    }

    /// Whether an image was asked for before.
    pub open spec fn known(&self, path: Seq<char>) -> bool {
        state_of(self.entries@, path) is Some || strings_view(self.loading@).contains(path)
    }

    fn state(&self, path: &str) -> (state: Option<ImageState>)
        ensures
            state == state_of(self.entries@, path@),
    {
        let mut i: usize = self.entries.len();
        assert(self.entries@.take(i as int) =~= self.entries@);
        while i > 0
            invariant
                i <= self.entries@.len(),
                state_of(self.entries@, path@) == state_of(self.entries@.take(i as int), path@),
            decreases i,
        {
            assert(self.entries@.take(i as int).drop_last() =~= self.entries@.take(i - 1));
            assert(self.entries@.take(i as int).last() == self.entries@[i - 1]);
            if same_text(self.entries[i - 1].path.as_str(), path) {
                return Some(self.entries[i - 1].state);
            }
            i -= 1;
        }
        None
    }

    /// An image was asked for, unless that was done before or it is given by a URL.
    pub open spec fn asked(&self, before: &ImageCache, src: Seq<char>, base_dir: Seq<char>) -> bool {
        let path = joined_path(base_dir, src);
        &&& self.entries == before.entries
        &&& self.width == before.width
        &&& if has_scheme(src) || before.known(path) {
            self.loading == before.loading && self.pending == before.pending
        } else {
            strings_view(self.loading@) == strings_view(before.loading@).push(path)
                && strings_view(self.pending@) == strings_view(before.pending@).push(path)
        }
    }

    /// Asks for an image, unless it was asked for before or is given by a URL.
    pub fn request(&mut self, src: &str, base_dir: &str)
        ensures
            final(self).asked(old(self), src@, base_dir@),
    {
        if is_url(src) {
            return ;
        }
        let path = resolve_path(src, base_dir);
        if self.state(path.as_str()).is_some() || holds(&self.loading, path.as_str()).is_some() {
            return ;
        }
        let ghost loading = strings_view(self.loading@);
        let ghost pending = strings_view(self.pending@);
        let ghost shown = path@;
        self.loading.push(path.clone());
        self.pending.push(path);
        assert(strings_view(self.loading@) =~= loading.push(shown));
        assert(strings_view(self.pending@) =~= pending.push(shown));
    }

    /// Takes the images to start decoding.
    pub fn take_requests(&mut self) -> (paths: Vec<String>)
        ensures
            paths@ == old(self).pending@,
            final(self).pending@.len() == 0,
            final(self).entries == old(self).entries,
            final(self).loading == old(self).loading,
            final(self).width == old(self).width,
    {
        let mut paths: Vec<String> = Vec::new();
        paths.append(&mut self.pending);
        assert(paths@ =~= old(self).pending@);
        paths
    }

    /// A decoded image was taken at a width, and whether rows changed.
    pub open spec fn completed(
        &self,
        before: &ImageCache,
        decoded: DecodedImage,
        width: usize,
        changed: bool,
    ) -> bool {
        let path = decoded.path_view();
        let ready = decoded is Loaded && decoded->rows is Some;
        &&& self.pending == before.pending
        &&& self.width == before.width
        &&& if strings_view(before.loading@).contains(path) {
            &&& changed == ready
            &&& exists|i: int|
                0 <= i < before.loading@.len() && #[trigger] before.loading@[i]@ == path
                    && self.loading@ == before.loading@.remove(i)
            &&& self.entries@.len() == before.entries@.len() + 1
            &&& self.entries@.last().path@ == path
            &&& self.entries@.drop_last() == before.entries@
            &&& self.entries@.last().state == (if ready {
                ImageState::Ready { rows: decoded->rows->0, width }
            } else {
                ImageState::Failed
            })
        } else {
            !changed && *self == *before
        }
    }

    /// Takes a decoded image at a width; tells whether rows changed. An image that
    /// is not being decoded is ignored.
    pub fn complete(&mut self, decoded: &DecodedImage, width: usize) -> (changed: bool)
        ensures
            final(self).completed(old(self), *decoded, width, changed),
    {
        let path = decoded.path();
        let at = match holds(&self.loading, path) {
            Some(i) => i,
            None => {
                return false;
            },
        };
        self.loading.remove(at);
        let state = match decoded {
            DecodedImage::Loaded { rows, .. } => match rows {
                Some(rows) => ImageState::Ready { rows: *rows, width },
                None => ImageState::Failed,
            },
            DecodedImage::Failed { .. } => ImageState::Failed,
        };
        let ghost before = self.entries@;
        self.entries.push(ImageEntry { path: path.to_owned(), state });
        proof {
            assert(self.entries@.drop_last() =~= before);
            assert(old(self).loading@[at as int]@ == path@);
        }
        match state {
            ImageState::Ready { .. } => true,
            ImageState::Failed => false,
        }
    }

    /// Takes a new width. `fits` tells for each image how many rows it takes at that
    /// width, `None` where the terminal cannot show it; images that were not fitted
    /// before or have that width already stay as they are.
    pub fn set_width(&mut self, width: usize, fits: &Vec<Option<u16>>)
        requires
            fits@.len() == old(self).entries@.len(),
        ensures
            final(self).width == width,
            final(self).loading == old(self).loading,
            final(self).pending == old(self).pending,
            final(self).entries@.len() == old(self).entries@.len(),
            forall|i: int|
                0 <= i < old(self).entries@.len() ==> (#[trigger] final(self).entries@[i]).path
                    == old(self).entries@[i].path && final(self).entries@[i].state == (if width
                    == old(self).width {
                    old(self).entries@[i].state
                } else {
                    refitted(old(self).entries@[i].state, fits@[i], width)
                }),
    {
        if width == self.width {
            return ;
        }
        self.width = width;
        let n: usize = self.entries.len();
        let mut i: usize = 0;
        while i < n
            invariant
                i <= n,
                n == self.entries@.len(),
                n == old(self).entries@.len(),
                n == fits@.len(),
                self.width == width,
                self.loading == old(self).loading,
                self.pending == old(self).pending,
                forall|k: int|
                    0 <= k < n ==> (#[trigger] self.entries@[k]).path == old(self).entries@[k].path
                        && self.entries@[k].state == (if k < i {
                        refitted(old(self).entries@[k].state, fits@[k], width)
                    } else {
                        old(self).entries@[k].state
                    }),
            decreases n - i,
        {
            self.refit(i, fits[i], width);
            i += 1;
        }
    }

    fn refit(&mut self, at: usize, rows: Option<u16>, width: usize)
        requires
            at < old(self).entries@.len(),
        ensures
            final(self).entries@.len() == old(self).entries@.len(),
            final(self).loading == old(self).loading,
            final(self).pending == old(self).pending,
            final(self).width == old(self).width,
            forall|i: int|
                0 <= i < old(self).entries@.len() ==> (#[trigger] final(self).entries@[i]).path
                    == old(self).entries@[i].path && final(self).entries@[i].state == (if i == at {
                    refitted(old(self).entries@[i].state, rows, width)
                } else {
                    old(self).entries@[i].state
                }),
    {
        let entry = &mut self.entries[at];
        if let ImageState::Ready { width: fitted, .. } = entry.state {
            if fitted != width {
                entry.state = match rows {
                    Some(rows) => ImageState::Ready { rows, width },
                    None => ImageState::Failed,
                };
            }
        }
    }

    /// The rows that an image takes.
    pub open spec fn image_rows(&self, src: Seq<char>, base_dir: Seq<char>) -> int {
        if has_scheme(src) {
            1
        } else {
            rows_of(state_of(self.entries@, joined_path(base_dir, src)))
        }
    }

    /// The rows that an image takes; one until it is there.
    pub fn rows(&self, src: &str, base_dir: &str) -> (rows: usize)
        ensures
            rows == self.image_rows(src@, base_dir@),
    {
        if is_url(src) {
            return 1;
        }
        match self.state(resolve_path(src, base_dir).as_str()) {
            Some(ImageState::Ready { rows, .. }) => (rows as usize).max(1),
            _ => 1,
        }
    }
}

/// How an image looks after it was fitted into a width.
pub open spec fn refitted(state: ImageState, rows: Option<u16>, width: usize) -> ImageState {
    match state {
        ImageState::Ready { rows: _, width: fitted } => if fitted == width {
            state
        } else {
            match rows {
                Some(rows) => ImageState::Ready { rows, width },
                None => ImageState::Failed,
            }
        },
        ImageState::Failed => state,
    }
}

impl DecodedImage {
    /// The path of the image.
    pub open spec fn path_view(&self) -> Seq<char> {
        match self {
            DecodedImage::Loaded { path, .. } => path@,
            DecodedImage::Failed { path } => path@,
        }
    }

    fn path(&self) -> (path: &str)
        ensures
            path@ == self.path_view(),
    {
        match self {
            DecodedImage::Loaded { path, .. } => path.as_str(),
            DecodedImage::Failed { path } => path.as_str(),
        }
    }
}

/// A path without the slashes at its end.
pub open spec fn unslashed(path: Seq<char>) -> Seq<char>
    decreases path.len(),
{
    if path.len() > 0 && path.last() == '/' {
        unslashed(path.drop_last())
    } else {
        path
    }
}

/// What stands up to the last slash of a path, with it; nothing where there is
/// none.
pub open spec fn up_to_slash(path: Seq<char>) -> Seq<char>
    decreases path.len(),
{
    if path.len() == 0 || path.last() == '/' {
        path
    } else {
        up_to_slash(path.drop_last())
    }
}

/// The directory that a path's last part stands in; empty where the path names
/// none.
pub open spec fn parent_dir(path: Seq<char>) -> Seq<char> {
    let head = up_to_slash(unslashed(path));
    if head.len() > 0 && unslashed(head).len() == 0 {
        "/"@
    } else {
        unslashed(head)
    }
}

fn unslashed_end(chars: &Vec<char>, end: usize) -> (n: usize)
    requires
        end <= chars@.len(),
    ensures
        n <= end,
        chars@.take(n as int) == unslashed(chars@.take(end as int)),
{
    let mut n: usize = end;
    while n > 0 && chars[n - 1] == '/'
        invariant
            n <= end <= chars@.len(),
            unslashed(chars@.take(n as int)) == unslashed(chars@.take(end as int)),
        decreases n,
    {
        assert(chars@.take(n as int).drop_last() =~= chars@.take(n - 1));
        assert(chars@.take(n as int).last() == chars@[n - 1]);
        n -= 1;
    }
    assert(n > 0 ==> chars@.take(n as int).last() == chars@[n - 1]);
    n
}

/// The directory that relative image paths are resolved against: that of the
/// document, or the current one for a document without a directory.
pub fn image_base_dir(file: Option<&str>, current: &str) -> (dir: String)
    ensures
        dir@ == (match file {
            Some(path) => if parent_dir(path@).len() > 0 {
                parent_dir(path@)
            } else {
                current@
            },
            None => current@,
        }),
{
    let path = match file {
        Some(path) => path,
        None => {
            return current.to_owned();
        },
    };
    let chars = chars_of(path);
    assert(chars@.take(chars@.len() as int) =~= chars@);
    let name_end = unslashed_end(&chars, chars.len());
    let mut slash: usize = name_end;
    while slash > 0 && chars[slash - 1] != '/'
        invariant
            slash <= name_end <= chars@.len(),
            up_to_slash(chars@.take(slash as int)) == up_to_slash(chars@.take(name_end as int)),
        decreases slash,
    {
        assert(chars@.take(slash as int).drop_last() =~= chars@.take(slash - 1));
        assert(chars@.take(slash as int).last() == chars@[slash - 1]);
        slash -= 1;
    }
    assert(slash > 0 ==> chars@.take(slash as int).last() == chars@[slash - 1]);
    let end = unslashed_end(&chars, slash);
    if slash > 0 && end == 0 {
        proof {
            reveal_strlit("/");
        }
        return "/".to_owned();
    }
    if end == 0 {
        return current.to_owned();
    }
    let dir = string_of(vstd::slice::slice_subrange(chars.as_slice(), 0, end));
    assert(dir@ =~= chars@.take(end as int));
    dir
}

/// An image is asked for once: not again while it is decoded, nor once it is
/// known.
pub proof fn law_images_are_asked_for_once(
    before: ImageCache,
    asked: ImageCache,
    done: ImageCache,
    path: Seq<char>,
)
    requires
        strings_view(asked.loading@) == strings_view(before.loading@).push(path),
        done.entries@.len() > 0,
        done.entries@.last().path@ == path,
    ensures
        asked.known(path),
        done.known(path),
{
    assert(strings_view(asked.loading@).last() == path);
}

/// A relative path is looked up below the directory of the document, an absolute one as
/// it is.
pub proof fn law_paths_are_resolved(dir: Seq<char>, path: Seq<char>)
    requires
        path.len() > 0,
    ensures
        path[0] == '/' ==> joined_path(dir, path) == path,
        path[0] != '/' && dir.len() > 0 ==> joined_path(dir, path).take(dir.len() as int) == dir
            && joined_path(dir, path).skip(joined_path(dir, path).len() - path.len()) == path,
        path[0] != '/' && dir.len() > 0 && dir.last() != '/' ==> joined_path(
            dir,
            path,
        )[dir.len() as int] == '/' && joined_path(dir, path).len() == dir.len() + 1 + path.len(),
        path[0] != '/' && dir.len() > 0 && dir.last() == '/' ==> joined_path(dir, path).len()
            == dir.len() + path.len(),
        path[0] != '/' && dir.len() == 0 ==> joined_path(dir, path) == path,
{
    if path[0] != '/' {
        assert(joined_path(dir, path).take(dir.len() as int) =~= dir);
        assert(joined_path(dir, path).skip(joined_path(dir, path).len() - path.len()) =~= path);
    }
}

/// The latest that is known of an image counts; an image takes as many rows as it was
/// fitted to, and one where it is not shown.
pub proof fn law_the_latest_state_counts(
    entries: Seq<ImageEntry>,
    entry: ImageEntry,
    path: Seq<char>,
)
    ensures
        entry.path@ == path ==> state_of(entries.push(entry), path) == Some(entry.state),
        entry.path@ != path ==> state_of(entries.push(entry), path) == state_of(entries, path),
        state_of(Seq::empty(), path) is None,
        rows_of(None) == 1,
        rows_of(Some(ImageState::Failed)) == 1,
        forall|rows: u16, width: usize|
            rows > 0 ==> #[trigger] rows_of(Some(ImageState::Ready { rows, width })) == rows,
{
    assert(entries.push(entry).drop_last() =~= entries);
}

/// What has a scheme starts with letters, digits and the like up to a colon.
pub proof fn law_schemes_end_in_a_colon(src: Seq<char>)
    requires
        has_scheme(src),
    ensures
        src[colon_at(src) as int] == ':',
        colon_at(src) >= 2,
        forall|i: int| 0 <= i < colon_at(src) ==> #[trigger] src[i] != ':',
{
    lemma_colon(src);
}

proof fn lemma_colon(s: Seq<char>)
    ensures
        colon_at(s) <= s.len(),
        colon_at(s) < s.len() ==> s[colon_at(s) as int] == ':',
        forall|i: int| 0 <= i < colon_at(s) ==> #[trigger] s[i] != ':',
    decreases s.len(),
{
    if s.len() > 0 && s[0] != ':' {
        lemma_colon(s.drop_first());
        assert forall|i: int| 0 <= i < colon_at(s) implies #[trigger] s[i] != ':' by {
            if i > 0 {
                assert(s[i] == s.drop_first()[i - 1]);
            }
        }
    }
}

impl ImageCache {
    /// An image that is not known yet is asked for, and then known; one that is known, or
    /// given by a URL, is not asked for again.
    pub proof fn law_new_images_are_asked_for(
        before: ImageCache,
        after: ImageCache,
        src: Seq<char>,
        base_dir: Seq<char>,
    )
        requires
            after.asked(&before, src, base_dir),
        ensures
            has_scheme(src) ==> after.pending == before.pending && after.loading == before.loading,
            before.known(joined_path(base_dir, src)) ==> after.pending == before.pending
                && after.loading == before.loading,
            !has_scheme(src) ==> after.known(joined_path(base_dir, src)),
            !has_scheme(src) && !before.known(joined_path(base_dir, src)) ==> strings_view(
                after.pending@,
            ).last() == joined_path(base_dir, src) && after.pending@.len() == before.pending@.len()
                + 1,
            after.entries == before.entries,
    {
        let path = joined_path(base_dir, src);
        if !has_scheme(src) {
            if before.known(path) {
                if !strings_view(before.loading@).contains(path) {
                    assert(after.entries == before.entries);
                }
            } else {
                assert(strings_view(after.loading@).last() == path);
                assert(strings_view(after.pending@).len() == after.pending@.len());
                assert(strings_view(before.pending@).len() == before.pending@.len());
            }
        }
    }

    /// A decoded image takes its rows; one that failed is known as such, and changes no
    /// rows. One that nobody waits for is left aside.
    pub proof fn law_decoded_images_take_their_rows(
        before: ImageCache,
        after: ImageCache,
        decoded: DecodedImage,
        width: usize,
        changed: bool,
    )
        requires
            after.completed(&before, decoded, width, changed),
        ensures
            !strings_view(before.loading@).contains(decoded.path_view()) ==> after == before
                && !changed,
            changed ==> decoded is Loaded && decoded->rows is Some && after.entries@.last().state
                == (ImageState::Ready { rows: decoded->rows->0, width }),
            strings_view(before.loading@).contains(decoded.path_view()) ==> after.known(
                decoded.path_view(),
            ) && after.loading@.len() == before.loading@.len() - 1,
            strings_view(before.loading@).contains(decoded.path_view()) && decoded is Failed
                ==> after.entries@.last().state == ImageState::Failed && !changed,
    {
    }
}

/// An image that was fitted into a width keeps its rows there; in another width it takes
/// the rows that it has in that one, and one that failed stays so.
pub proof fn law_images_are_fitted_anew(rows: u16, width: usize, other: usize, fit: Option<u16>)
    ensures
        refitted(ImageState::Ready { rows, width }, fit, width) == (ImageState::Ready {
            rows,
            width,
        }),
        other != width && fit is Some ==> refitted(ImageState::Ready { rows, width }, fit, other)
            == (ImageState::Ready { rows: fit->0, width: other }),
        other != width && fit is None ==> refitted(ImageState::Ready { rows, width }, fit, other)
            == ImageState::Failed,
        refitted(ImageState::Failed, fit, other) == ImageState::Failed,
{
}

} // verus!
