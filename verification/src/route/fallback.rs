//! The fallback site: every file of it is read once at startup and kept in
//! memory. What can be asked for is exactly what was read, so no path leads
//! out of the site.

use crate::buffers;
use crate::http_util;
use crate::http_util::HTTP_DATE_END;
use crate::text;
use bytes::Bytes;
use vstd::hash_map::StringHashMap;
use vstd::prelude::*;

verus! {

/// A file of the site as it is served.
#[derive(Debug)]
pub struct FileEntry {
    pub bytes: Bytes,
    pub content_type: &'static str,
    pub etag: String,
    pub last_modified: String,
}

/// `FileEntry` over mathematical values.
#[verifier::ext_equal]
pub struct Served {
    pub bytes: Seq<u8>,
    pub content_type: Seq<char>,
    pub etag: Seq<char>,
    pub last_modified: Seq<char>,
}

impl Served {
    /// Every text of the file can stand in a header.
    pub open spec fn sendable(self) -> bool {
        &&& http_util::header_text(self.content_type)
        &&& http_util::header_text(self.etag)
        &&& http_util::header_text(self.last_modified)
    }
}

impl View for FileEntry {
    type V = Served;

    open spec fn view(&self) -> Served {
        Served {
            bytes: buffers::shared_bytes(self.bytes),
            content_type: self.content_type@,
            etag: self.etag@,
            last_modified: self.last_modified@,
        }
    }
}

/// A file as it was read: its path below the directory of the site, its
/// content, and when it was modified, in seconds since the Unix epoch.
pub struct LoadedFile {
    pub path: String,
    pub bytes: Vec<u8>,
    pub modified: u64,
}

/// The media type that goes with an extension.
pub open spec fn media_type(extension: Seq<char>) -> Seq<char> {
    let e = text::ascii_lowercase(extension);
    if e == "html"@ || e == "htm"@ {
        "text/html; charset=utf-8"@
    } else if e == "css"@ {
        "text/css; charset=utf-8"@
    } else if e == "js"@ || e == "mjs"@ {
        "application/javascript; charset=utf-8"@
    } else if e == "json"@ {
        "application/json; charset=utf-8"@
    } else if e == "svg"@ {
        "image/svg+xml"@
    } else if e == "png"@ {
        "image/png"@
    } else if e == "jpg"@ || e == "jpeg"@ {
        "image/jpeg"@
    } else if e == "gif"@ {
        "image/gif"@
    } else if e == "ico"@ {
        "image/x-icon"@
    } else if e == "webp"@ {
        "image/webp"@
    } else if e == "woff"@ {
        "font/woff"@
    } else if e == "woff2"@ {
        "font/woff2"@
    } else if e == "ttf"@ {
        "font/ttf"@
    } else if e == "txt"@ {
        "text/plain; charset=utf-8"@
    } else if e == "xml"@ {
        "application/xml; charset=utf-8"@
    } else if e == "webmanifest"@ {
        "application/manifest+json"@
    } else {
        "application/octet-stream"@
    }
}

/// The media type that goes with an extension.
pub fn content_type_for(extension: &str) -> (res: &'static str)
    ensures
        res@ == media_type(extension@),
{
    let lowered = text::lowercased(extension);
    let e = lowered.as_str();
    if *e == *"html" || *e == *"htm" {
        "text/html; charset=utf-8"
    } else if *e == *"css" {
        "text/css; charset=utf-8"
    } else if *e == *"js" || *e == *"mjs" {
        "application/javascript; charset=utf-8"
    } else if *e == *"json" {
        "application/json; charset=utf-8"
    } else if *e == *"svg" {
        "image/svg+xml"
    } else if *e == *"png" {
        "image/png"
    } else if *e == *"jpg" || *e == *"jpeg" {
        "image/jpeg"
    } else if *e == *"gif" {
        "image/gif"
    } else if *e == *"ico" {
        "image/x-icon"
    } else if *e == *"webp" {
        "image/webp"
    } else if *e == *"woff" {
        "font/woff"
    } else if *e == *"woff2" {
        "font/woff2"
    } else if *e == *"ttf" {
        "font/ttf"
    } else if *e == *"txt" {
        "text/plain; charset=utf-8"
    } else if *e == *"xml" {
        "application/xml; charset=utf-8"
    } else if *e == *"webmanifest" {
        "application/manifest+json"
    } else {
        "application/octet-stream"
    }
}

/// The name of a file: what follows the last slash of its path.
pub open spec fn file_name(path: Seq<char>) -> Seq<char> {
    match text::last_place(path, '/') {
        Some(i) => path.skip(i + 1),
        None => path,
    }
}

/// The extension of a file: what follows the last dot of its name. A dot that
/// the name begins with makes no extension.
pub open spec fn file_extension(path: Seq<char>) -> Seq<char> {
    let name = file_name(path);
    match text::last_place(name, '.') {
        Some(i) => if i > 0 {
            name.skip(i + 1)
        } else {
            Seq::empty()
        },
        None => Seq::empty(),
    }
}

/// The extension of a file.
pub fn extension_of(path: &str) -> (res: String)
    ensures
        res@ == file_extension(path@),
{
    let chars = text::chars_of(path);
    let name = match text::find_last(&chars, '/') {
        Some(i) => text::chars_of(text::text_from(&chars, i + 1).as_str()),
        None => chars,
    };
    match text::find_last(&name, '.') {
        Some(i) => {
            if i > 0 {
                text::text_from(&name, i + 1)
            } else {
                String::new()
            }
        },
        None => String::new(),
    }
}

/// A file whose name has something before its last dot is served as what
/// follows the dot says, whatever directory it is in.
pub proof fn law_media_type_goes_by_the_last_dot(
    directory: Seq<char>,
    stem: Seq<char>,
    extension: Seq<char>,
    file: LoadedFile,
)
    requires
        stem.len() > 0,
        !stem.contains('/'),
        !extension.contains('/'),
        !extension.contains('.'),
        file.path@ == stem + seq!['.'] + extension || file.path@ == directory + seq!['/'] + (stem
            + seq!['.'] + extension),
    ensures
        served(file).content_type == media_type(extension),
{
    let name = stem + seq!['.'] + extension;
    assert forall|i: int| 0 <= i < name.len() implies #[trigger] name[i] != '/' by {
        if i < stem.len() {
            assert(stem.contains(stem[i]));
        } else if i > stem.len() {
            assert(name[i] == extension[i - stem.len() - 1]);
            assert(extension.contains(extension[i - stem.len() - 1]));
        }
    }
    text::law_last_place(directory, '/', name);
    text::law_last_place(stem, '.', extension);
    assert((directory + seq!['/'] + name).skip(directory.len() as int + 1) =~= name);
    assert(name.skip(stem.len() as int + 1) =~= extension);
}

/// An entity tag: the time of modification and the size in hexadecimal, with a
/// dash in between, in quotes.
pub open spec fn entity_tag(size: nat, modified: nat) -> Seq<char> {
    "\""@ + text::hexadecimal(modified) + "-"@ + text::hexadecimal(size) + "\""@
}

/// An entity tag for a file of that size and time of modification.
pub fn make_etag(size: u64, modified: u64) -> (res: String)
    ensures
        res@ == entity_tag(size as nat, modified as nat),
{
    let mut out = String::new();
    text::append_text(&mut out, "\"");
    text::append_text(&mut out, text::hex_text(modified).as_str());
    text::append_text(&mut out, "-");
    text::append_text(&mut out, text::hex_text(size).as_str());
    text::append_text(&mut out, "\"");
    proof {
        assert(out@ =~= entity_tag(size as nat, modified as nat));
    }
    out
}

/// The path under which a file is asked for: a slash, and the path of the file
/// with slashes in place of backslashes.
pub open spec fn url_path(path: Seq<char>) -> Seq<char> {
    seq!['/'] + Seq::new(
        path.len(),
        |i: int|
            if path[i] == '\\' {
                '/'
            } else {
                path[i]
            },
    )
}

/// The path under which a file is asked for.
pub fn url_path_for(path: &str) -> (res: String)
    ensures
        res@ == url_path(path@),
{
    let chars = text::chars_of(path);
    let mut out = String::new();
    out.push('/');
    for i in 0..chars.len()
        invariant
            chars@ == path@,
            out@.len() == i + 1,
            out@ == url_path(path@).take(i + 1),
    {
        out.push(
            if chars[i] == '\\' {
                '/'
            } else {
                chars[i]
            },
        );
        proof {
            assert(out@ =~= url_path(path@).take(i + 2));
        }
    }
    proof {
        assert(url_path(path@).take(path@.len() as int + 1) =~= url_path(path@));
    }
    out
}

/// How a file is served.
pub open spec fn served(file: LoadedFile) -> Served {
    Served {
        bytes: file.bytes@,
        content_type: media_type(file_extension(file.path@)),
        etag: entity_tag(file.bytes@.len(), file.modified as nat),
        last_modified: http_util::http_date_text(file.modified),
    }
}

proof fn lemma_media_type_is_sendable(extension: Seq<char>)
    ensures
        http_util::header_text(media_type(extension)),
{
    reveal_strlit("text/html; charset=utf-8");
    reveal_strlit("text/css; charset=utf-8");
    reveal_strlit("application/javascript; charset=utf-8");
    reveal_strlit("application/json; charset=utf-8");
    reveal_strlit("image/svg+xml");
    reveal_strlit("image/png");
    reveal_strlit("image/jpeg");
    reveal_strlit("image/gif");
    reveal_strlit("image/x-icon");
    reveal_strlit("image/webp");
    reveal_strlit("font/woff");
    reveal_strlit("font/woff2");
    reveal_strlit("font/ttf");
    reveal_strlit("text/plain; charset=utf-8");
    reveal_strlit("application/xml; charset=utf-8");
    reveal_strlit("application/manifest+json");
    reveal_strlit("application/octet-stream");
}

proof fn lemma_tag_is_sendable(size: nat, modified: nat)
    ensures
        http_util::header_text(entity_tag(size, modified)),
{
    reveal_strlit("\"");
    reveal_strlit("-");
    text::lemma_hex_is_printable(size);
    text::lemma_hex_is_printable(modified);
}

/// The files by the path under which they are asked for.
pub open spec fn served_files(files: Seq<LoadedFile>) -> Map<Seq<char>, Served>
    decreases files.len(),
{
    if files.len() == 0 {
        Map::empty()
    } else {
        served_files(files.drop_last()).insert(url_path(files.last().path@), served(files.last()))
    }
}

/// The page for what is not there, where the site has none of its own.
pub open spec fn default_404_html() -> Seq<char> {
    "<!doctype html><html lang=\"en\"><head><meta charset=\"utf-8\"><title>404 Not Found</title></head><body><h1>404 Not Found</h1><p>The page you requested does not exist.</p></body></html>"@
}

/// The page for what is not there: that of the site, or a default made now.
pub open spec fn missing_page(files: Map<Seq<char>, Served>, now: u64) -> Served {
    if files.contains_key("/404.html"@) {
        files["/404.html"@]
    } else {
        let bytes = vstd::utf8::encode_utf8(default_404_html());
        Served {
            bytes,
            content_type: "text/html; charset=utf-8"@,
            etag: entity_tag(bytes.len(), 0),
            last_modified: http_util::http_date_text(now),
        }
    }
}

/// The path that a request means: what stands before the query, and the index
/// where that is nothing or a slash.
pub open spec fn wanted_path(raw_path: Seq<char>) -> Seq<char> {
    let path = text::before_first(raw_path, '?');
    if path == "/"@ || path.len() == 0 {
        "/index.html"@
    } else {
        path
    }
}

/// Why a site cannot be served.
#[derive(Clone, Copy, Debug, PartialEq, Eq, Structural)]
pub enum SiteError {
    /// There is no `index.html` in the directory of the site.
    MissingIndex,
}

pub(crate) fn bytes_of(s: &str) -> (res: Vec<u8>)
    ensures
        res@ == vstd::utf8::encode_utf8(s@),
{
    vstd::slice::slice_to_vec(s.as_bytes())
}

impl FileEntry {
    fn from_loaded(extension: &str, bytes: Vec<u8>, modified: u64) -> (res: FileEntry)
        requires
            modified < HTTP_DATE_END,
        ensures
            res@ == (Served {
                bytes: bytes@,
                content_type: media_type(extension@),
                etag: entity_tag(bytes@.len(), modified as nat),
                last_modified: http_util::http_date_text(modified),
            }),
            res@.sendable(),
    {
        let size: u64 = bytes.len() as u64;
        proof {
            lemma_media_type_is_sendable(extension@);
            lemma_tag_is_sendable(bytes@.len(), modified as nat);
        }
        FileEntry {
            content_type: content_type_for(extension),
            etag: make_etag(size, modified),
            last_modified: http_util::http_date(modified),
            bytes: buffers::shared_from_vec(bytes),
        }
    }
}

impl Clone for FileEntry {
    fn clone(&self) -> (res: FileEntry)
        ensures
            res@ == self@,
    {
        FileEntry {
            bytes: buffers::shared_clone(&self.bytes),
            content_type: self.content_type,
            etag: self.etag.clone(),
            last_modified: self.last_modified.clone(),
        }
    }
}

/// The site, in memory.
pub struct StaticSite {
    files: StringHashMap<FileEntry>,
    not_found: FileEntry,
}

/// The entries of a table as they are served.
pub open spec fn table_view(table: Map<Seq<char>, FileEntry>) -> Map<Seq<char>, Served> {
    Map::new(|path: Seq<char>| table.contains_key(path), |path: Seq<char>| table[path]@)
}

impl StaticSite {
    /// The files by the path under which they are asked for.
    pub closed spec fn files(self) -> Map<Seq<char>, Served> {
        table_view(self.files@)
    }

    /// The page for what is not there.
    pub closed spec fn missing(self) -> Served {
        self.not_found@
    }

    /// The site has an index, and every text of its files can stand in a
    /// header.
    pub open spec fn well_formed(self) -> bool {
        &&& self.files().contains_key("/index.html"@)
        &&& self.missing().sendable()
        &&& forall|path: Seq<char>| #[trigger]
            self.files().contains_key(path) ==> self.files()[path].sendable()
    }

    /// Makes the site out of the files that were read. `now` is the current
    /// time, in seconds since the Unix epoch.
    pub fn try_load(files: Vec<LoadedFile>, now: u64) -> (res: Result<StaticSite, SiteError>)
        requires
            now < HTTP_DATE_END,
            forall|i: int| 0 <= i < files@.len() ==> (#[trigger] files@[i]).modified
                < HTTP_DATE_END,
        ensures
            res is Ok <==> served_files(files@).contains_key("/index.html"@),
            res matches Err(e) ==> e == SiteError::MissingIndex,
            res matches Ok(site) ==> {
                &&& site.well_formed()
                &&& site.files() == served_files(files@)
                &&& site.missing() == missing_page(served_files(files@), now)
            },
    {
        let ghost all = files@;
        let mut table: StringHashMap<FileEntry> = StringHashMap::new();
        proof {
            assert(table_view(table@) =~= served_files(all.take(0)));
        }
        for file in it: files
            invariant
                it.seq() == all,
                forall|i: int| 0 <= i < all.len() ==> (#[trigger] all[i]).modified < HTTP_DATE_END,
                table_view(table@) == served_files(all.take(it.index())),
                forall|path: Seq<char>| #[trigger]
                    table_view(table@).contains_key(path) ==> table_view(
                        table@,
                    )[path].sendable(),
        {
            proof {
                assert(all.take(it.index() + 1).drop_last() =~= all.take(it.index()));
                assert(all.take(it.index() + 1).last() == file);
            }
            let ghost before = table@;
            let path = url_path_for(file.path.as_str());
            let extension = extension_of(file.path.as_str());
            let entry = FileEntry::from_loaded(extension.as_str(), file.bytes, file.modified);
            let ghost (key, value) = (path@, entry);
            table.insert(path, entry);
            proof {
                assert(table_view(before.insert(key, value)) =~= table_view(before).insert(
                    key,
                    value@,
                ));
            }
        }
        proof {
            assert(all.take(all.len() as int) =~= all);
        }
        if !table.contains_key("/index.html") {
            return Err(SiteError::MissingIndex);
        }
        let not_found = match table.get("/404.html") {
            Some(entry) => {
                proof {
                    assert(table_view(table@).contains_key("/404.html"@));
                }
                entry.clone()
            },
            None => {
                let page = bytes_of(
                    "<!doctype html><html lang=\"en\"><head><meta charset=\"utf-8\"><title>404 Not Found</title></head><body><h1>404 Not Found</h1><p>The page you requested does not exist.</p></body></html>",
                );
                let size: u64 = page.len() as u64;
                proof {
                    lemma_media_type_is_sendable("html"@);
                    reveal_strlit("html");
                    assert(text::ascii_lowercase("html"@) =~= "html"@);
                    lemma_tag_is_sendable(page@.len(), 0);
                }
                FileEntry {
                    content_type: "text/html; charset=utf-8",
                    etag: make_etag(size, 0),
                    last_modified: http_util::http_date(now),
                    bytes: buffers::shared_from_vec(page),
                }
            },
        };
        Ok(StaticSite { files: table, not_found })
    }

    /// The file that a path, with or without a query, leads to.
    pub fn resolve(&self, raw_path: &str) -> (res: Option<&FileEntry>)
        ensures
            match res {
                Some(entry) => self.files().contains_key(wanted_path(raw_path@)) && entry@
                    == self.files()[wanted_path(raw_path@)],
                None => !self.files().contains_key(wanted_path(raw_path@)),
            },
    {
        let path = text::text_before(raw_path, '?');
        proof {
            reveal_strlit("");
            assert(path@.len() == 0 <==> path@ =~= ""@);
        }
        if *path.as_str() == *"/" || *path.as_str() == *"" {
            self.files.get("/index.html")
        } else {
            self.files.get(path.as_str())
        }
    }

    /// The page for what is not there.
    pub fn not_found(&self) -> (res: &FileEntry)
        ensures
            res@ == self.missing(),
    {
        &self.not_found
    }
}

// ---------------------------------------------------------------------
// Laws
// ---------------------------------------------------------------------

/// Only files that were read are served: what a path leads to is a file of
/// the site, the one read last under that path.
pub proof fn law_only_read_files_are_served(files: Seq<LoadedFile>, path: Seq<char>)
    ensures
        served_files(files).contains_key(path) <==> exists|i: int|
            0 <= i < files.len() && url_path((#[trigger] files[i]).path@) == path,
        served_files(files).contains_key(path) ==> exists|i: int|
            {
                &&& 0 <= i < files.len()
                &&& url_path((#[trigger] files[i]).path@) == path
                &&& served_files(files)[path] == served(files[i])
                &&& forall|j: int|
                    i < j < files.len() ==> url_path((#[trigger] files[j]).path@) != path
            },
    decreases files.len(),
{
    if files.len() > 0 {
        let rest = files.drop_last();
        let last = files.len() - 1;
        law_only_read_files_are_served(rest, path);
        if url_path(files[last].path@) == path {
            assert(served_files(files)[path] == served(files[last]));
        } else {
            if served_files(rest).contains_key(path) {
                let i = choose|i: int|
                    {
                        &&& 0 <= i < rest.len()
                        &&& url_path((#[trigger] rest[i]).path@) == path
                        &&& served_files(rest)[path] == served(rest[i])
                        &&& forall|j: int|
                            i < j < rest.len() ==> url_path((#[trigger] rest[j]).path@) != path
                    };
                assert(files[i] == rest[i]);
                assert forall|j: int| i < j < files.len() implies url_path(
                    (#[trigger] files[j]).path@,
                ) != path by {
                    if j < last {
                        assert(rest[j] == files[j]);
                    }
                }
            }
            assert forall|i: int| 0 <= i < files.len() && url_path((#[trigger] files[i]).path@)
                == path implies served_files(rest).contains_key(path) by {
                assert(rest[i] == files[i]);
            }
        }
    }
}

/// The root of a site that could be loaded always leads to its index.
pub proof fn law_root_is_the_index(site: StaticSite, query: Seq<char>)
    requires
        site.well_formed(),
    ensures
        wanted_path("/"@) == "/index.html"@,
        wanted_path("/"@ + "?"@ + query) == "/index.html"@,
        wanted_path(Seq::<char>::empty()) == "/index.html"@,
        site.files().contains_key(wanted_path("/"@)),
{
    reveal_strlit("/");
    reveal_strlit("?");
    assert("/"@ =~= seq!['/']);
    assert("?"@ =~= seq!['?']);
    law_query_is_ignored("/"@, query);
    assert(text::before_first("/"@, '?') =~= "/"@) by {
        reveal_with_fuel(text::before_first, 3);
        assert("/"@.skip(1) =~= Seq::empty());
    }
}

/// The query of a path does not matter.
pub proof fn law_query_is_ignored(path: Seq<char>, query: Seq<char>)
    requires
        !path.contains('?'),
    ensures
        wanted_path(path + "?"@ + query) == wanted_path(path),
{
    reveal_strlit("?");
    assert("?"@ =~= seq!['?']);
    text::law_before_first_ignores_the_rest(path, '?', query);
    text::lemma_before_first_whole(path, '?');
}

/// Two versions of a file that differ in size or in time of modification have
/// different entity tags.
pub proof fn law_tags_tell_versions_apart(size: nat, modified: nat, size2: nat, modified2: nat)
    requires
        entity_tag(size, modified) == entity_tag(size2, modified2),
    ensures
        size == size2,
        modified == modified2,
{
    reveal_strlit("\"");
    reveal_strlit("-");
    let a = text::hexadecimal(modified);
    let b = text::hexadecimal(size);
    let a2 = text::hexadecimal(modified2);
    let b2 = text::hexadecimal(size2);
    let tag = entity_tag(size, modified);
    text::lemma_hex_digits(modified);
    text::lemma_hex_digits(modified2);
    text::lemma_hex_digits(size);
    text::lemma_hex_digits(size2);
    assert(tag.len() == a.len() + b.len() + 3);
    assert(tag.len() == a2.len() + b2.len() + 3);
    assert forall|i: int| 0 <= i < a.len() implies #[trigger] tag[i + 1] == a[i] by {}
    assert(tag[a.len() as int + 1] == '-');
    assert(tag[a2.len() as int + 1] == '-');
    if a.len() < a2.len() {
        assert(entity_tag(size2, modified2)[a.len() as int + 1] == a2[a.len() as int]);
    }
    if a2.len() < a.len() {
        assert(entity_tag(size, modified)[a2.len() as int + 1] == a[a2.len() as int]);
    }
    assert(a =~= a2) by {
        assert forall|i: int| 0 <= i < a.len() implies a[i] == a2[i] by {
            assert(entity_tag(size, modified)[i + 1] == a[i]);
            assert(entity_tag(size2, modified2)[i + 1] == a2[i]);
        }
    }
    assert(b =~= b2) by {
        assert forall|i: int| 0 <= i < b.len() implies b[i] == b2[i] by {
            assert(entity_tag(size, modified)[a.len() + 2 + i] == b[i]);
            assert(entity_tag(size2, modified2)[a2.len() + 2 + i] == b2[i]);
        }
    }
    text::law_hexadecimal_tells_numbers_apart(modified, modified2);
    text::law_hexadecimal_tells_numbers_apart(size, size2);
}

/// A path means itself, with or without a query behind it; only the empty path
/// and the root mean the index.
pub proof fn law_paths_mean_themselves(path: Seq<char>, query: Seq<char>)
    requires
        !path.contains('?'),
    ensures
        path.len() > 0 && path != seq!['/'] ==> wanted_path(path) == path && wanted_path(
            path + seq!['?'] + query,
        ) == path,
        path.len() == 0 || path == seq!['/'] ==> wanted_path(path) == "/index.html"@ && wanted_path(
            path + seq!['?'] + query,
        ) == "/index.html"@,
{
    reveal_strlit("/");
    assert("/"@ =~= seq!['/']);
    text::law_cut_at_the_first(path, '?', query);
}

/// A file is asked for under a slash and its own path, character by character,
/// but for backslashes, which are slashes.
pub proof fn law_files_are_asked_for_under_their_paths(path: Seq<char>)
    ensures
        url_path(path).len() == path.len() + 1,
        url_path(path)[0] == '/',
        forall|i: int|
            0 <= i < path.len() ==> (path[i] != '\\' ==> #[trigger] url_path(path)[i + 1]
                == path[i]),
        forall|i: int|
            0 <= i < path.len() ==> (path[i] == '\\' ==> #[trigger] url_path(path)[i + 1] == '/'),
        !path.contains('\\') ==> url_path(path) == seq!['/'] + path,
{
    if !path.contains('\\') {
        assert forall|i: int| 0 <= i < path.len() implies #[trigger] path[i] != '\\' by {
            assert(path.contains(path[i]));
        }
        assert(url_path(path) =~= seq!['/'] + path);
    }
}

/// The media type of each extension that is known, however it is capitalised.
/// Anything else is served as bytes.
pub proof fn law_media_types(extension: Seq<char>)
    ensures
        text::ascii_lowercase(extension) == "html"@ || text::ascii_lowercase(extension) == "htm"@ ==> media_type(extension) == "text/html; charset=utf-8"@,
        text::ascii_lowercase(extension) == "css"@ ==> media_type(extension) == "text/css; charset=utf-8"@,
        text::ascii_lowercase(extension) == "js"@ || text::ascii_lowercase(extension) == "mjs"@ ==> media_type(extension) == "application/javascript; charset=utf-8"@,
        text::ascii_lowercase(extension) == "json"@ ==> media_type(extension) == "application/json; charset=utf-8"@,
        text::ascii_lowercase(extension) == "svg"@ ==> media_type(extension) == "image/svg+xml"@,
        text::ascii_lowercase(extension) == "png"@ ==> media_type(extension) == "image/png"@,
        text::ascii_lowercase(extension) == "jpg"@ || text::ascii_lowercase(extension) == "jpeg"@ ==> media_type(extension) == "image/jpeg"@,
        text::ascii_lowercase(extension) == "gif"@ ==> media_type(extension) == "image/gif"@,
        text::ascii_lowercase(extension) == "ico"@ ==> media_type(extension) == "image/x-icon"@,
        text::ascii_lowercase(extension) == "webp"@ ==> media_type(extension) == "image/webp"@,
        text::ascii_lowercase(extension) == "woff"@ ==> media_type(extension) == "font/woff"@,
        text::ascii_lowercase(extension) == "woff2"@ ==> media_type(extension) == "font/woff2"@,
        text::ascii_lowercase(extension) == "ttf"@ ==> media_type(extension) == "font/ttf"@,
        text::ascii_lowercase(extension) == "txt"@ ==> media_type(extension) == "text/plain; charset=utf-8"@,
        text::ascii_lowercase(extension) == "xml"@ ==> media_type(extension) == "application/xml; charset=utf-8"@,
        text::ascii_lowercase(extension) == "webmanifest"@ ==> media_type(extension) == "application/manifest+json"@,
        text::ascii_lowercase(extension) != "html"@ && text::ascii_lowercase(extension) != "htm"@ && text::ascii_lowercase(extension) != "css"@ && text::ascii_lowercase(extension) != "js"@ && text::ascii_lowercase(extension) != "mjs"@ && text::ascii_lowercase(extension) != "json"@ && text::ascii_lowercase(extension) != "svg"@ && text::ascii_lowercase(extension) != "png"@ && text::ascii_lowercase(extension) != "jpg"@ && text::ascii_lowercase(extension) != "jpeg"@ && text::ascii_lowercase(extension) != "gif"@ && text::ascii_lowercase(extension) != "ico"@ && text::ascii_lowercase(extension) != "webp"@ && text::ascii_lowercase(extension) != "woff"@ && text::ascii_lowercase(extension) != "woff2"@ && text::ascii_lowercase(extension) != "ttf"@ && text::ascii_lowercase(extension) != "txt"@ && text::ascii_lowercase(extension) != "xml"@ && text::ascii_lowercase(extension) != "webmanifest"@ ==> media_type(extension) == "application/octet-stream"@,
{
    reveal_strlit("html");
    reveal_strlit("htm");
    reveal_strlit("css");
    reveal_strlit("js");
    reveal_strlit("mjs");
    reveal_strlit("json");
    reveal_strlit("svg");
    reveal_strlit("png");
    reveal_strlit("jpg");
    reveal_strlit("jpeg");
    reveal_strlit("gif");
    reveal_strlit("ico");
    reveal_strlit("webp");
    reveal_strlit("woff");
    reveal_strlit("woff2");
    reveal_strlit("ttf");
    reveal_strlit("txt");
    reveal_strlit("xml");
    reveal_strlit("webmanifest");
    assert("html"@ =~= seq!['h', 't', 'm', 'l']);
    assert("htm"@ =~= seq!['h', 't', 'm']);
    assert("css"@ =~= seq!['c', 's', 's']);
    assert("js"@ =~= seq!['j', 's']);
    assert("mjs"@ =~= seq!['m', 'j', 's']);
    assert("json"@ =~= seq!['j', 's', 'o', 'n']);
    assert("svg"@ =~= seq!['s', 'v', 'g']);
    assert("png"@ =~= seq!['p', 'n', 'g']);
    assert("jpg"@ =~= seq!['j', 'p', 'g']);
    assert("jpeg"@ =~= seq!['j', 'p', 'e', 'g']);
    assert("gif"@ =~= seq!['g', 'i', 'f']);
    assert("ico"@ =~= seq!['i', 'c', 'o']);
    assert("webp"@ =~= seq!['w', 'e', 'b', 'p']);
    assert("woff"@ =~= seq!['w', 'o', 'f', 'f']);
    assert("woff2"@ =~= seq!['w', 'o', 'f', 'f', '2']);
    assert("ttf"@ =~= seq!['t', 't', 'f']);
    assert("txt"@ =~= seq!['t', 'x', 't']);
    assert("xml"@ =~= seq!['x', 'm', 'l']);
    assert("webmanifest"@ =~= seq!['w', 'e', 'b', 'm', 'a', 'n', 'i', 'f', 'e', 's', 't']);
}

/// A tag is the time of modification and the size, both in hexadecimal, with a
/// dash between them, in quotes.
pub proof fn law_tags_are_time_and_size(size: nat, modified: nat)
    ensures
        entity_tag(size, modified) == seq!['"'] + text::hexadecimal(modified) + seq!['-']
            + text::hexadecimal(size) + seq!['"'],
{
    reveal_strlit("\"");
    reveal_strlit("-");
    assert("\""@ =~= seq!['"']);
    assert("-"@ =~= seq!['-']);
}

/// A file is served with its own bytes, with a tag of its own size and time,
/// and with its own time as its date.
pub proof fn law_files_are_served_as_read(file: LoadedFile)
    ensures
        served(file).bytes == file.bytes@,
        served(file).etag == entity_tag(file.bytes@.len(), file.modified as nat),
        served(file).last_modified == http_util::http_date_text(file.modified),
{
}

/// A file whose name has no dot, or none but the one it begins with, is served
/// as bytes, whatever directory it is in.
pub proof fn law_files_without_extension_are_bytes(
    directory: Seq<char>,
    name: Seq<char>,
    file: LoadedFile,
)
    requires
        !name.contains('/'),
        !name.contains('.') || (name.len() > 0 && name[0] == '.' && !name.skip(1).contains('.')),
        file.path@ == name || file.path@ == directory + seq!['/'] + name,
    ensures
        served(file).content_type == "application/octet-stream"@,
{
    text::law_last_place(directory, '/', name);
    assert((directory + seq!['/'] + name).skip(directory.len() as int + 1) =~= name);
    if !name.contains('.') {
        text::law_last_place(Seq::empty(), '.', name);
    } else {
        let rest = name.skip(1);
        text::law_last_place(Seq::empty(), '.', rest);
        assert(Seq::<char>::empty() + seq!['.'] + rest =~= name);
    }
    assert(file_extension(file.path@) =~= Seq::empty());
    law_media_types(Seq::empty());
    reveal_strlit("html");
    reveal_strlit("htm");
    reveal_strlit("css");
    reveal_strlit("js");
    reveal_strlit("mjs");
    reveal_strlit("json");
    reveal_strlit("svg");
    reveal_strlit("png");
    reveal_strlit("jpg");
    reveal_strlit("jpeg");
    reveal_strlit("gif");
    reveal_strlit("ico");
    reveal_strlit("webp");
    reveal_strlit("woff");
    reveal_strlit("woff2");
    reveal_strlit("ttf");
    reveal_strlit("txt");
    reveal_strlit("xml");
    reveal_strlit("webmanifest");
    assert(text::ascii_lowercase(Seq::<char>::empty()).len() == 0);
}

/// What is not there gets the page that the site has for it, and a page of
/// the same kind where it has none.
pub proof fn law_page_for_what_is_missing(files: Map<Seq<char>, Served>, now: u64)
    ensures
        files.contains_key("/404.html"@) ==> missing_page(files, now) == files["/404.html"@],
        !files.contains_key("/404.html"@) ==> {
            let page = missing_page(files, now);
            &&& page.bytes == vstd::utf8::encode_utf8(
                "<!doctype html><html lang=\"en\"><head><meta charset=\"utf-8\"><title>404 Not Found</title></head><body><h1>404 Not Found</h1><p>The page you requested does not exist.</p></body></html>"@,
            )
            &&& page.content_type == "text/html; charset=utf-8"@
            &&& page.etag == entity_tag(page.bytes.len(), 0)
            &&& page.last_modified == http_util::http_date_text(now)
        },
{
}

/// The views of a file and of a table of files show what they are.
pub proof fn law_files_are_shown_as_they_are(
    entry: FileEntry,
    table: Map<Seq<char>, FileEntry>,
    path: Seq<char>,
)
    ensures
        entry@.bytes == buffers::shared_bytes(entry.bytes),
        entry@.content_type == entry.content_type@,
        entry@.etag == entry.etag@,
        entry@.last_modified == entry.last_modified@,
        table_view(table).contains_key(path) <==> table.contains_key(path),
        table.contains_key(path) ==> table_view(table)[path] == table[path]@,
{
}

/// The extension of a file is what follows the last dot of its name, whatever
/// directory it is in; a name without a dot, or with none but the one it
/// begins with, has no extension.
pub proof fn law_extensions_follow_the_last_dot(
    directory: Seq<char>,
    stem: Seq<char>,
    extension: Seq<char>,
)
    requires
        !stem.contains('/'),
        !extension.contains('/'),
        !extension.contains('.'),
    ensures
        stem.len() > 0 ==> file_extension(stem + seq!['.'] + extension) == extension,
        stem.len() > 0 ==> file_extension(
            directory + seq!['/'] + (stem + seq!['.'] + extension),
        ) == extension,
        file_extension(seq!['.'] + extension).len() == 0,
        file_extension(extension).len() == 0,
        file_extension(directory + seq!['/'] + (seq!['.'] + extension)).len() == 0,
        file_extension(directory + seq!['/'] + extension).len() == 0,
{
    let name = stem + seq!['.'] + extension;
    let dotted = seq!['.'] + extension;
    assert forall|i: int| 0 <= i < name.len() implies #[trigger] name[i] != '/' by {
        if i < stem.len() {
            assert(stem.contains(stem[i]));
        } else if i > stem.len() {
            assert(name[i] == extension[i - stem.len() - 1]);
            assert(extension.contains(extension[i - stem.len() - 1]));
        }
    }
    assert forall|i: int| 0 <= i < dotted.len() implies #[trigger] dotted[i] != '/' by {
        if i > 0 {
            assert(dotted[i] == extension[i - 1]);
            assert(extension.contains(extension[i - 1]));
        }
    }
    text::law_last_place(directory, '/', name);
    text::law_last_place(directory, '/', dotted);
    text::law_last_place(directory, '/', extension);
    text::law_last_place(stem, '.', extension);
    text::law_last_place(Seq::empty(), '.', extension);
    assert(Seq::<char>::empty() + seq!['.'] + extension =~= dotted);
    assert((directory + seq!['/'] + name).skip(directory.len() as int + 1) =~= name);
    assert((directory + seq!['/'] + dotted).skip(directory.len() as int + 1) =~= dotted);
    assert((directory + seq!['/'] + extension).skip(directory.len() as int + 1) =~= extension);
    assert(name.skip(stem.len() as int + 1) =~= extension);
}

/// A site that could be loaded has an index, and nothing in it that could not
/// be sent.
pub proof fn law_loaded_sites_can_be_served(site: StaticSite, path: Seq<char>)
    requires
        site.well_formed(),
    ensures
        site.files().contains_key("/index.html"@),
        site.files().contains_key(path) ==> http_util::header_text(
            site.files()[path].content_type,
        ) && http_util::header_text(site.files()[path].etag) && http_util::header_text(
            site.files()[path].last_modified,
        ),
        http_util::header_text(site.missing().content_type),
{
}

} // verus!
