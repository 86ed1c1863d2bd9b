//! The export formats and what an export is made of: which episodes go
//! into one file, what the file is called, and what kind an image is.
use vstd::prelude::*;
use crate::cache::EpisodeCache;
use crate::range::apply_range;
use crate::range::range_filter;
use crate::range::sort_by_ord;
use crate::range::sorted_by_ord;
use crate::range::Bounds;
use crate::text::chars_of;
use crate::text::decimal_of;
use crate::text::push_decimal;
use crate::text::push_str;
use crate::text::string_of;
use crate::utils::make_groups;
use crate::text::ends_with;
use crate::text::has_suffix;

verus! {

/// What every export format has: the extension of its files.
pub trait ExportFormat {
    /// The extension of the format's files.
    spec fn extension(&self) -> Seq<char>;

    /// The extension of the format's files.
    fn get_extension(&self) -> (ext: &'static str)
        ensures
            ext@ == self.extension(),
    ;
}

/// The PDF format.
#[derive(Debug, Clone, Copy, PartialEq, Eq, Structural)]
pub struct PDF;

/// The EPUB format, with the bytes of the work's cover, if it has one.
#[derive(Debug, Clone)]
pub struct Epub {
    pub cover: Option<Vec<u8>>,
}

/// The ZIP format: the pages as they are, in one archive.
#[derive(Debug, Clone, Copy, PartialEq, Eq, Structural)]
pub struct Zip;

/// The comic book archive: a ZIP archive with a description of the work.
#[derive(Debug, Clone, Copy, PartialEq, Eq, Structural)]
pub struct Cbz;

/// One of the export formats.
#[derive(Debug, Clone)]
pub enum ExportFormatEnum {
    Epub(Epub),
    PDF(PDF),
    Zip(Zip),
    Cbz(Cbz),
}

impl ExportFormat for PDF {
    open spec fn extension(&self) -> Seq<char> {
        "pdf"@
    }

    fn get_extension(&self) -> (ext: &'static str) {
        "pdf"
    }
}

impl ExportFormat for Epub {
    open spec fn extension(&self) -> Seq<char> {
        "epub"@
    }

    fn get_extension(&self) -> (ext: &'static str) {
        "epub"
    }
}

impl ExportFormat for Zip {
    open spec fn extension(&self) -> Seq<char> {
        "zip"@
    }

    fn get_extension(&self) -> (ext: &'static str) {
        "zip"
    }
}

impl ExportFormat for Cbz {
    open spec fn extension(&self) -> Seq<char> {
        "cbz"@
    }

    fn get_extension(&self) -> (ext: &'static str) {
        "cbz"
    }
}

impl ExportFormat for ExportFormatEnum {
    open spec fn extension(&self) -> Seq<char> {
        match *self {
            ExportFormatEnum::Epub(format) => format.extension(),
            ExportFormatEnum::PDF(format) => format.extension(),
            ExportFormatEnum::Zip(format) => format.extension(),
            ExportFormatEnum::Cbz(format) => format.extension(),
        }
    }

    fn get_extension(&self) -> (ext: &'static str) {
        match self {
            ExportFormatEnum::Epub(format) => format.get_extension(),
            ExportFormatEnum::PDF(format) => format.get_extension(),
            ExportFormatEnum::Zip(format) => format.get_extension(),
            ExportFormatEnum::Cbz(format) => format.get_extension(),
        }
    }
}

/// The format that a name stands for: `pdf` and `epub` by their names,
/// and the ZIP format for every other name.
pub fn format_named(name: &str, cover: Option<Vec<u8>>) -> (format: ExportFormatEnum)
    ensures
        format == if name@ == "pdf"@ {
            ExportFormatEnum::PDF(PDF)
        } else if name@ == "epub"@ {
            ExportFormatEnum::Epub(Epub { cover })
        } else {
            ExportFormatEnum::Zip(Zip)
        },
{
    let given = name.to_owned();
    if given == "pdf".to_owned() {
        ExportFormatEnum::PDF(PDF)
    } else if given == "epub".to_owned() {
        ExportFormatEnum::Epub(Epub { cover })
    } else {
        ExportFormatEnum::Zip(Zip)
    }
}

/// The media type of an image by the end of its path.
pub open spec fn mime_of(path: Seq<char>) -> Seq<char> {
    if ends_with(path, seq!['.', 'j', 'p', 'g']) || ends_with(path, seq!['.', 'j', 'p', 'e', 'g']) {
        "image/jpeg"@
    } else if ends_with(path, seq!['.', 'p', 'n', 'g']) {
        "image/png"@
    } else if ends_with(path, seq!['.', 'g', 'i', 'f']) {
        "image/gif"@
    } else if ends_with(path, seq!['.', 's', 'v', 'g']) {
        "image/svg+xml"@
    } else {
        "application/octet-stream"@
    }
}

impl Epub {
    /// The media type of an image by the end of its path.
    pub fn guess_mime(path: &str) -> (mime: &'static str)
        ensures
            mime@ == mime_of(path@),
    {
        let chars = chars_of(path);
        let jpg: Vec<char> = vec!['.', 'j', 'p', 'g'];
        let jpeg: Vec<char> = vec!['.', 'j', 'p', 'e', 'g'];
        let png: Vec<char> = vec!['.', 'p', 'n', 'g'];
        let gif: Vec<char> = vec!['.', 'g', 'i', 'f'];
        let svg: Vec<char> = vec!['.', 's', 'v', 'g'];
        assert(jpg@ =~= seq!['.', 'j', 'p', 'g']);
        assert(jpeg@ =~= seq!['.', 'j', 'p', 'e', 'g']);
        assert(png@ =~= seq!['.', 'p', 'n', 'g']);
        assert(gif@ =~= seq!['.', 'g', 'i', 'f']);
        assert(svg@ =~= seq!['.', 's', 'v', 'g']);
        if has_suffix(&chars, &jpg) || has_suffix(&chars, &jpeg) {
            "image/jpeg"
        } else if has_suffix(&chars, &png) {
            "image/png"
        } else if has_suffix(&chars, &gif) {
            "image/gif"
        } else if has_suffix(&chars, &svg) {
            "image/svg+xml"
        } else {
            "application/octet-stream"
        }
    }
}

/// What goes into one exported file: one episode, or several.
#[derive(Debug)]
pub enum Item<'a> {
    Single(&'a EpisodeCache),
    Group(Vec<&'a EpisodeCache>),
}

/// The episodes of an item, in their order.
pub open spec fn members<'a>(item: Item<'a>) -> Seq<&'a EpisodeCache> {
    match item {
        Item::Single(episode) => seq![episode],
        Item::Group(episodes) => episodes@,
    }
}

/// The episodes of each item of a list.
pub open spec fn members_of<'a>(items: Seq<Item<'a>>) -> Seq<Seq<&'a EpisodeCache>> {
    items.map_values(|item: Item<'a>| members(item))
}

/// A list cut into groups of `size`, the last of which may be smaller. A
/// size of zero makes one group of a list that is not empty.
pub open spec fn groups_of<T>(list: Seq<T>, size: nat) -> Seq<Seq<T>>
    decreases list.len(),
{
    if list.len() == 0 {
        Seq::<Seq<T>>::empty()
    } else if size == 0 || list.len() <= size {
        seq![list]
    } else {
        seq![list.take(size as int)] + groups_of(list.skip(size as int), size)
    }
}

/// The key below which the smallest key of a group is looked for: that of
/// the largest finite number.
pub const LARGEST_FINITE_KEY: i64 = 0x7fef_ffff_ffff_ffff;

/// The smallest key of a group, as the name of its file takes it: no
/// larger than the key of the largest finite number.
pub open spec fn least_ord(list: Seq<&EpisodeCache>) -> i64
    decreases list.len(),
{
    if list.len() == 0 {
        LARGEST_FINITE_KEY
    } else {
        let before = least_ord(list.drop_last());
        if list.last().ord < before {
            list.last().ord
        } else {
            before
        }
    }
}

/// The largest key of a group, as the name of its file takes it: no
/// smaller than the key of zero.
pub open spec fn greatest_ord(list: Seq<&EpisodeCache>) -> i64
    decreases list.len(),
{
    if list.len() == 0 {
        0
    } else {
        let before = greatest_ord(list.drop_last());
        if list.last().ord > before {
            list.last().ord
        } else {
            before
        }
    }
}

/// The smallest and the largest key of a group.
pub fn get_min_max_ord(episodes: &Vec<&EpisodeCache>) -> (span: (i64, i64))
    ensures
        span == (least_ord(episodes@), greatest_ord(episodes@)),
{
    let mut min: i64 = LARGEST_FINITE_KEY;
    let mut max: i64 = 0;
    let mut i: usize = 0;
    while i < episodes.len()
        invariant
            i <= episodes.len(),
            min == least_ord(episodes@.take(i as int)),
            max == greatest_ord(episodes@.take(i as int)),
        decreases episodes.len() - i,
    {
        proof {
            assert(episodes@.take(i + 1).drop_last() == episodes@.take(i as int));
        }
        let ord = episodes[i].ord;
        if ord < min {
            min = ord;
        }
        if ord > max {
            max = ord;
        }
        i += 1;
    }
    proof {
        assert(episodes@.take(episodes.len() as int) == episodes@);
    }
    (min, max)
}

/// The keys between which an item lies: the key of a single episode
/// twice, the smallest and the largest key of a group.
pub open spec fn span_of(item: Item) -> (i64, i64) {
    match item {
        Item::Single(episode) => (episode.ord, episode.ord),
        Item::Group(episodes) => (least_ord(episodes@), greatest_ord(episodes@)),
    }
}

/// The name of an item's file, without extension, from the texts of the
/// two keys between which it lies: key and title of a single episode, or
/// of a group that lies on one key; else both keys and the titles of the
/// first and the last episode of the group.
pub open spec fn file_name_of(item: Item, low: Seq<char>, high: Seq<char>) -> Seq<char> {
    match item {
        Item::Single(episode) => low + seq!['.', ' '] + episode.title@,
        Item::Group(episodes) => if least_ord(episodes@) == greatest_ord(episodes@) {
            low + seq!['.', ' '] + episodes@[0].title@
        } else {
            low + seq!['-'] + high + seq!['.', ' '] + episodes@[0].title@ + seq!['-']
                + episodes@.last().title@
        },
    }
}

impl<'a> Item<'a> {
    /// The keys between which the item lies.
    pub fn ord_span(&self) -> (span: (i64, i64))
        ensures
            span == span_of(*self),
    {
        match self {
            Item::Single(episode) => (episode.ord, episode.ord),
            Item::Group(episodes) => get_min_max_ord(episodes),
        }
    }

    /// The name of the item's file, without extension. `low` and `high`
    /// are the two keys of its span as they are shown.
    pub fn make_file_name(&self, low: &str, high: &str) -> (name: String)
        requires
            *self matches Item::Group(episodes) ==> episodes@.len() > 0,
        ensures
            name@ == file_name_of(*self, low@, high@),
    {
        let mut out: Vec<char> = Vec::new();
        match self {
            Item::Single(episode) => {
                push_str(&mut out, low);
                out.push('.');
                out.push(' ');
                push_str(&mut out, episode.title.as_str());
                assert(out@ =~= file_name_of(*self, low@, high@));
            },
            Item::Group(episodes) => {
                let span = get_min_max_ord(episodes);
                if span.0 == span.1 {
                    push_str(&mut out, low);
                    out.push('.');
                    out.push(' ');
                    push_str(&mut out, episodes[0].title.as_str());
                    assert(out@ =~= file_name_of(*self, low@, high@));
                } else {
                    push_str(&mut out, low);
                    out.push('-');
                    push_str(&mut out, high);
                    out.push('.');
                    out.push(' ');
                    push_str(&mut out, episodes[0].title.as_str());
                    out.push('-');
                    push_str(&mut out, episodes[episodes.len() - 1].title.as_str());
                    assert(out@ =~= file_name_of(*self, low@, high@));
                }
            },
        }
        string_of(&out)
    }
}

/// The episodes that an export takes: those of the cache in ascending
/// order of their keys, as far as the range selects them.
pub fn select_for_export<'a>(episodes: Vec<&'a EpisodeCache>, range: &Vec<Bounds>) -> (out: Vec<
    &'a EpisodeCache,
>)
    ensures
        out@ == range_filter(sorted_by_ord(episodes@), range@),
{
    apply_range(sort_by_ord(episodes), range)
}

/// The items of an export: one for each episode where the export is
/// split, else the groups of the given size, or one group of everything
/// where no size is given.
pub open spec fn items_of<'a>(list: Seq<&'a EpisodeCache>, grouping: nat, split: bool) -> Seq<
    Seq<&'a EpisodeCache>,
> {
    if split {
        list.map_values(|episode: &'a EpisodeCache| seq![episode])
    } else if grouping > 0 {
        groups_of(list, grouping)
    } else {
        seq![list]
    }
}

/// The name of a page inside an archive: the episode's directory, made of
/// the text of its key and its title, then the page's number and the
/// extension of its file.
pub open spec fn archive_entry_of(
    ord_text: Seq<char>,
    title: Seq<char>,
    page: nat,
    ext: Seq<char>,
) -> Seq<char> {
    ord_text + seq![' ', '-', ' '] + title + seq!['/'] + decimal_of(page) + seq!['.'] + ext
}

/// The name of a page inside an archive.
pub fn archive_entry(ord_text: &str, title: &str, page: usize, ext: &str) -> (name: String)
    ensures
        name@ == archive_entry_of(ord_text@, title@, page as nat, ext@),
{
    let mut out: Vec<char> = Vec::new();
    push_str(&mut out, ord_text);
    out.push(' ');
    out.push('-');
    out.push(' ');
    push_str(&mut out, title);
    out.push('/');
    push_decimal(page as u64, &mut out);
    out.push('.');
    push_str(&mut out, ext);
    assert(out@ =~= archive_entry_of(ord_text@, title@, page as nat, ext@));
    string_of(&out)
}

/// The items of an export: one for each episode where the export is
/// split, else groups of the given size, or one group of everything where
/// no size is given.
pub fn export_items<'a>(list: Vec<&'a EpisodeCache>, grouping: usize, split: bool) -> (items: Vec<
    Item<'a>,
>)
    ensures
        members_of(items@) == items_of(list@, grouping as nat, split),
        forall|i: int| 0 <= i < items@.len() ==> ((#[trigger] items@[i]) is Single <==> split),
{
    if split {
        let ghost all = list@;
        let mut items: Vec<Item<'a>> = Vec::new();
        for episode in it: list
            invariant
                it.seq() == all,
                members_of(items@) == items_of(all.take(it.index() as int), grouping as nat, true),
                forall|i: int| 0 <= i < items@.len() ==> (#[trigger] items@[i]) is Single,
        {
            let ghost before = members_of(items@);
            items.push(Item::Single(episode));
            proof {
                assert(members_of(items@) =~= before.push(seq![episode]));
                assert(items_of(all.take(it.index() + 1), grouping as nat, true) =~= items_of(
                    all.take(it.index() as int),
                    grouping as nat,
                    true,
                ).push(seq![episode]));
            }
        }
        proof {
            assert(all.take(all.len() as int) == all);
        }
        items
    } else if grouping > 0 {
        make_groups(list, grouping)
    } else {
        let ghost all = list@;
        let mut items: Vec<Item<'a>> = Vec::new();
        items.push(Item::Group(list));
        assert(members_of(items@) =~= seq![all]);
        items
    }
}

/// Why the arguments of an export are refused.
#[derive(Debug, Clone, Copy, PartialEq, Eq, Structural)]
pub enum ExportRefusal {
    /// Groups and one file for each episode were both asked for.
    GroupedAndSplit,
    /// The format is none that can be written.
    UnknownFormat,
}

/// Whether a name is that of a format that can be written.
pub open spec fn is_format_name(name: Seq<char>) -> bool {
    name == "epub"@ || name == "pdf"@ || name == "zip"@ || name == "cbz"@
}

/// Checks the arguments of an export: groups and a split exclude each
/// other, and the format must be one that can be written.
pub fn check_export(format: &str, grouping: usize, split: bool) -> (checked: Result<
    (),
    ExportRefusal,
>)
    ensures
        checked == if grouping > 0 && split {
            Err::<(), ExportRefusal>(ExportRefusal::GroupedAndSplit)
        } else if !is_format_name(format@) {
            Err::<(), ExportRefusal>(ExportRefusal::UnknownFormat)
        } else {
            Ok::<(), ExportRefusal>(())
        },
{
    if grouping > 0 && split {
        return Err(ExportRefusal::GroupedAndSplit);
    }
    let given = format.to_owned();
    if given == "epub".to_owned() || given == "pdf".to_owned() || given == "zip".to_owned()
        || given == "cbz".to_owned() {
        Ok(())
    } else {
        Err(ExportRefusal::UnknownFormat)
    }
}

/// The name of a page's image inside an EPUB file.
pub open spec fn epub_image_of(episode: u32, file_name: Seq<char>) -> Seq<char> {
    "images/"@ + decimal_of(episode as nat) + seq!['/'] + file_name
}

/// The name of a page's document inside an EPUB file. In a file of
/// several episodes the first page of each episode opens a chapter and is
/// named by the episode alone; every other page is named by episode and
/// page.
pub open spec fn epub_page_of(episode: u32, page: nat, merged: bool) -> Seq<char> {
    if merged && page == 0 {
        decimal_of(episode as nat) + ".xhtml"@
    } else {
        decimal_of(episode as nat) + seq!['-'] + decimal_of(page) + ".xhtml"@
    }
}

/// The name of a page's image inside an EPUB file.
pub fn epub_image(episode: u32, file_name: &str) -> (name: String)
    ensures
        name@ == epub_image_of(episode, file_name@),
{
    let mut out: Vec<char> = Vec::new();
    push_str(&mut out, "images/");
    push_decimal(episode as u64, &mut out);
    out.push('/');
    push_str(&mut out, file_name);
    assert(out@ =~= epub_image_of(episode, file_name@));
    string_of(&out)
}

/// The name of a page's document inside an EPUB file.
pub fn epub_page(episode: u32, page: usize, merged: bool) -> (name: String)
    ensures
        name@ == epub_page_of(episode, page as nat, merged),
{
    let mut out: Vec<char> = Vec::new();
    push_decimal(episode as u64, &mut out);
    if !(merged && page == 0) {
        out.push('-');
        push_decimal(page as u64, &mut out);
    }
    push_str(&mut out, ".xhtml");
    assert(out@ =~= epub_page_of(episode, page as nat, merged));
    string_of(&out)
}

} // verus!
