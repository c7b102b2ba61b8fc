//! Items made from what the file system says of a directory entry, and what
//! kind of preview an item gets from its contents.
use vstd::prelude::*;
use vstd::utf8::{valid_utf8, decode_utf8};
use crate::digits::push_char;
use crate::layout::{PreviewType, MAX_SIZE_TO_PREVIEW};
use crate::magic_image::{is_supported_image_type, spec_image_signature, ImageSignature};
use crate::state::{FileType, ItemInfo};

verus! {

/// Whether `b` starts with `p`.
pub open spec fn starts_with(b: Seq<u8>, p: Seq<u8>) -> bool {
    p.len() <= b.len() && b.subrange(0, p.len() as int) == p
}

/// Whether `content_inspector::inspect` calls `b` text: it starts with a byte
/// order mark, or it has no zero byte among its first 1024 bytes and does not
/// start with the magic number of a PDF or PNG file.
pub open spec fn content_is_text(b: Seq<u8>) -> bool {
    ||| starts_with(b, seq![0xEFu8, 0xBBu8, 0xBFu8])
    ||| starts_with(b, seq![0x00u8, 0x00u8, 0xFEu8, 0xFFu8])
    ||| starts_with(b, seq![0xFFu8, 0xFEu8])
    ||| starts_with(b, seq![0xFEu8, 0xFFu8])
    ||| {
        &&& forall|i: int| 0 <= i < b.len() && i < 1024 ==> b[i] != 0u8
        &&& !starts_with(b, seq![0x25u8, 0x50u8, 0x44u8, 0x46u8])
        &&& !starts_with(b, seq![0x89u8, 0x50u8, 0x4Eu8, 0x47u8])
    }
}

/// `content_inspector::inspect(b).is_text()`: the crate checks the byte order
/// marks, then the first 1024 bytes for a zero byte, then the PDF and PNG magic
/// numbers, as `content_is_text` states.
#[verifier::external_body]
fn inspect_is_text(b: &[u8]) -> (r: bool)
    ensures
        r == content_is_text(b@),
{
    content_inspector::inspect(b).is_text()
}

/// `str::from_utf8`: the text the bytes encode, when they are valid UTF-8.
#[verifier::external_body]
fn text_of_bytes(b: &[u8]) -> (r: Option<String>)
    ensures
        match r {
            Some(s) => valid_utf8(b@) && s@ == decode_utf8(b@),
            None => !valid_utf8(b@),
        },
{
    std::str::from_utf8(b).ok().map(|s| s.to_string())
}

/// The text with each tab replaced by four spaces.
pub open spec fn expand_tabs(s: Seq<char>) -> Seq<char>
    decreases s.len(),
{
    if s.len() == 0 {
        s
    } else if s.last() == '\t' {
        expand_tabs(s.drop_last()) + seq![' ', ' ', ' ', ' ']
    } else {
        expand_tabs(s.drop_last()).push(s.last())
    }
}

/// Replace each tab by four spaces.
pub fn replace_tabs(s: &str) -> (r: String)
    ensures
        r@ == expand_tabs(s@),
{
    let mut r = String::new();
    let len = s.unicode_len();
    let mut i: usize = 0;
    while i < len
        invariant
            len == s@.len(),
            i <= len,
            r@ == expand_tabs(s@.take(i as int)),
        decreases len - i,
    {
        let c = s.get_char(i);
        proof {
            assert(s@.take(i + 1).drop_last() =~= s@.take(i as int));
            assert(s@.take(i + 1).last() == c);
        }
        if c == '\t' {
            push_char(&mut r, ' ');
            push_char(&mut r, ' ');
            push_char(&mut r, ' ');
            push_char(&mut r, ' ');
            proof {
                assert(r@ =~= expand_tabs(s@.take(i + 1)));
            }
        } else {
            push_char(&mut r, c);
        }
        i = i + 1;
    }
    proof {
        assert(s@.take(len as int) =~= s@);
    }
    r
}

/// Whether a file whose contents are `b` is previewed as an image.
pub open spec fn is_image_content(b: Seq<u8>) -> bool {
    b.len() >= 12 && spec_image_signature(b.subrange(0, 12)) != ImageSignature::NotSupported
}

/// The preview an item gets: directories (and symlinks to them) list their
/// entries; files too big are not read; files that could not be read say so;
/// then images, text and binary files, by their contents `bytes`.
pub open spec fn preview_kind(item: ItemInfo, bytes: Option<Seq<u8>>) -> PreviewType {
    if item.file_type == FileType::Directory || (item.file_type == FileType::Symlink && item.symlink_dir_path is Some) {
        PreviewType::Directory
    } else if item.file_size > MAX_SIZE_TO_PREVIEW {
        PreviewType::TooBigSize
    } else {
        match bytes {
            None => PreviewType::NotReadable,
            Some(b) => if is_image_content(b) {
                PreviewType::Image
            } else if content_is_text(b) {
                PreviewType::Text
            } else {
                PreviewType::Binary
            },
        }
    }
}

/// Set content type from ItemInfo: `bytes` holds the contents of the file
/// when it could be read. A text file keeps its text (tabs widened) when it is
/// valid UTF-8.
pub fn set_preview_content_type(item: &mut ItemInfo, bytes: Option<Vec<u8>>)
    ensures
        final(item).preview_type == Some(preview_kind(ItemInfo { file_type: FileType::File, ..*old(item) }, match bytes {
            Some(b) => Some(b@),
            None => None,
        })),
        match bytes {
            Some(b) => if old(item).file_size <= MAX_SIZE_TO_PREVIEW && !is_image_content(b@) && content_is_text(b@) && valid_utf8(b@) {
                final(item).content matches Some(t) && t@ == expand_tabs(decode_utf8(b@))
            } else {
                final(item).content == old(item).content
            },
            None => final(item).content == old(item).content,
        },
        *final(item) == (ItemInfo { preview_type: final(item).preview_type, content: final(item).content, ..*old(item) }),
{
    if item.file_size > MAX_SIZE_TO_PREVIEW {
        item.preview_type = Some(PreviewType::TooBigSize);
        return;
    }
    match bytes {
        None => {
            item.preview_type = Some(PreviewType::NotReadable);
        },
        Some(b) => {
            if is_supported_image_type(b.as_slice()) {
                item.preview_type = Some(PreviewType::Image);
            } else if inspect_is_text(b.as_slice()) {
                match text_of_bytes(b.as_slice()) {
                    Some(t) => {
                        let t = replace_tabs(t.as_str());
                        item.content = Some(t);
                    },
                    None => {},
                }
                item.preview_type = Some(PreviewType::Text);
            } else {
                item.preview_type = Some(PreviewType::Binary);
            }
        },
    }
}

/// Check preview type.
pub fn set_preview_type(item: &mut ItemInfo, bytes: Option<Vec<u8>>)
    ensures
        final(item).preview_type == Some(preview_kind(*old(item), match bytes {
            Some(b) => Some(b@),
            None => None,
        })),
        *final(item) == (ItemInfo { preview_type: final(item).preview_type, content: final(item).content, ..*old(item) }),
{
    if item.file_type == FileType::Directory || (item.file_type == FileType::Symlink && item.symlink_dir_path.is_some()) {
        item.preview_type = Some(PreviewType::Directory);
    } else {
        set_preview_content_type(item, bytes);
    }
}

/// What the file system says of an entry: its kind, size, permission bits,
/// modification time (as text), and for a symlink to a directory the path it
/// resolves to.
#[derive(Debug, Clone)]
pub struct EntryMeta {
    pub is_dir: bool,
    pub is_file: bool,
    pub is_symlink: bool,
    pub size: u64,
    pub permissions: Option<u32>,
    pub modified: Option<String>,
    pub symlink_dir_path: Option<String>,
}

/// The kind of an entry: a directory, a file, a symlink, or (anything else) a file.
pub open spec fn kind_of(m: EntryMeta) -> FileType {
    if m.is_dir {
        FileType::Directory
    } else if m.is_file {
        FileType::File
    } else if m.is_symlink {
        FileType::Symlink
    } else {
        FileType::File
    }
}

/// The extension in lower case (ASCII letters only are changed).
pub open spec fn ascii_lower(s: Seq<char>) -> Seq<char> {
    s.map_values(|c: char| if 'A' <= c <= 'Z' { ((c as u32) + 32) as char } else { c })
}

/// Lower the ASCII letters of a text.
pub fn to_ascii_lowercase(s: &str) -> (r: String)
    ensures
        r@ == ascii_lower(s@),
{
    let mut r = String::new();
    let len = s.unicode_len();
    let mut i: usize = 0;
    while i < len
        invariant
            len == s@.len(),
            i <= len,
            r@ == ascii_lower(s@.take(i as int)),
        decreases len - i,
    {
        let c = s.get_char(i);
        let d = if 'A' <= c && c <= 'Z' {
            let b: u8 = (c as u32 + 32) as u8;
            b as char
        } else {
            c
        };
        push_char(&mut r, d);
        proof {
            assert(ascii_lower(s@.take(i + 1)) =~= ascii_lower(s@.take(i as int)).push(d));
        }
        i = i + 1;
    }
    proof {
        assert(s@.take(len as int) =~= s@);
    }
    r
}

/// Read item information from what the file system gave for a directory entry:
/// its name, path, extension (as the path has it) and, when they could be read,
/// its metadata. Names starting with a dot are hidden; directories have no
/// extension; an entry without metadata is a plain, empty file.
pub fn read_item(name: String, path: String, ext: Option<String>, meta: Option<EntryMeta>) -> (item: ItemInfo)
    ensures
        item.file_name == name,
        item.file_path == path,
        !item.selected && !item.matches && !item.is_dirty,
        item.preview_type is None,
        item.preview_scroll == 0,
        item.content is None,
        match ext {
            Some(e) => if meta matches Some(m) && kind_of(m) == FileType::Directory {
                item.file_ext is None
            } else {
                item.file_ext matches Some(x) && x@ == ascii_lower(e@)
            },
            None => item.file_ext is None,
        },
        match meta {
            Some(m) => {
                &&& item.file_type == kind_of(m)
                &&& item.file_size == m.size
                &&& item.permissions == m.permissions
                &&& item.modified == m.modified
                &&& item.symlink_dir_path == if kind_of(m) == FileType::Symlink { m.symlink_dir_path } else { None }
                &&& item.is_hidden == (name@.len() > 0 && name@[0] == '.')
            },
            None => {
                &&& item.file_type == FileType::File
                &&& item.file_size == 0
                &&& item.permissions is None
                &&& item.modified is None
                &&& item.symlink_dir_path is None
                &&& !item.is_hidden
            },
        },
{
    let hidden = name.as_str().unicode_len() > 0 && name.as_str().get_char(0) == '.';
    let lower = match &ext {
        Some(e) => Some(to_ascii_lowercase(e.as_str())),
        None => None,
    };
    match meta {
        Some(m) => {
            let file_type = if m.is_dir {
                FileType::Directory
            } else if m.is_file {
                FileType::File
            } else if m.is_symlink {
                FileType::Symlink
            } else {
                FileType::File
            };
            let sym = match file_type {
                FileType::Symlink => m.symlink_dir_path,
                _ => None,
            };
            let file_ext = match file_type {
                FileType::Directory => None,
                _ => lower,
            };
            ItemInfo {
                file_type,
                file_name: name,
                file_path: path,
                symlink_dir_path: sym,
                file_size: m.size,
                file_ext,
                modified: m.modified,
                is_hidden: hidden,
                selected: false,
                matches: false,
                preview_type: None,
                preview_scroll: 0,
                content: None,
                permissions: m.permissions,
                is_dirty: false,
            }
        },
        None => ItemInfo {
            file_type: FileType::File,
            file_name: name,
            file_path: path,
            symlink_dir_path: None,
            file_size: 0,
            file_ext: lower,
            modified: None,
            is_hidden: false,
            selected: false,
            matches: false,
            preview_type: None,
            preview_scroll: 0,
            content: None,
            permissions: None,
            is_dirty: false,
        },
    }
}

/// A directory, or a symlink that leads to a directory, is previewed as a
/// directory whatever bytes were read (the entries of the directory are
/// listed); a plain file is never previewed as a directory: it is too big
/// above the size limit, and not readable when its bytes could not be read.
pub proof fn law_directory_preview(item: ItemInfo, bytes: Option<Seq<u8>>, after: ItemInfo)
    requires
        after.preview_type == Some(preview_kind(item, bytes)),
    ensures
        (item.file_type == FileType::Directory || (item.file_type == FileType::Symlink && item.symlink_dir_path is Some))
            ==> after.preview_type == Some(PreviewType::Directory),
        item.file_type == FileType::File ==> after.preview_type != Some(PreviewType::Directory),
        item.file_type == FileType::File && item.file_size > MAX_SIZE_TO_PREVIEW
            ==> after.preview_type == Some(PreviewType::TooBigSize),
        item.file_type == FileType::File && item.file_size <= MAX_SIZE_TO_PREVIEW && bytes is None
            ==> after.preview_type == Some(PreviewType::NotReadable),
{
}

} // verus!
