use vstd::prelude::*;

verus! {

/// One member of a tar archive as the `tar` crate reports it.
#[derive(Debug)]
pub struct TarMember {
    /// The member's path, long-name extensions applied.
    pub name: Vec<u8>,
    /// The type byte of its header.
    pub typeflag: u8,
    /// The mode field of its header, where it holds a number.
    pub mode: Option<u32>,
    /// The modification time of its header, in seconds, where it holds a
    /// number.
    pub mtime: Option<u64>,
    /// The name that the member links to, where it has one.
    pub link: Option<Vec<u8>>,
    pub data: Vec<u8>,
}

pub struct TarMemberView {
    pub name: Seq<u8>,
    pub typeflag: u8,
    pub mode: Option<u32>,
    pub mtime: Option<u64>,
    pub link: Option<Seq<u8>>,
    pub data: Seq<u8>,
}

impl View for TarMember {
    type V = TarMemberView;

    open spec fn view(&self) -> TarMemberView {
        TarMemberView {
            name: self.name@,
            typeflag: self.typeflag,
            mode: self.mode,
            mtime: self.mtime,
            link: match self.link {
                Some(link) => Some(link@),
                None => None,
            },
            data: self.data@,
        }
    }
}

/// One member of a zip archive as the `zip` crate reports it.
#[derive(Debug)]
pub struct ZipMember {
    pub name: Vec<u8>,
    pub directory: bool,
    pub link: bool,
    pub mode: Option<u32>,
    pub data: Vec<u8>,
}

pub struct ZipMemberView {
    pub name: Seq<u8>,
    pub directory: bool,
    pub link: bool,
    pub mode: Option<u32>,
    pub data: Seq<u8>,
}

impl View for ZipMember {
    type V = ZipMemberView;

    open spec fn view(&self) -> ZipMemberView {
        ZipMemberView {
            name: self.name@,
            directory: self.directory,
            link: self.link,
            mode: self.mode,
            data: self.data@,
        }
    }
}

pub open spec fn tar_members_view(members: Seq<TarMember>) -> Seq<TarMemberView> {
    members.map_values(|m: TarMember| m@)
}

pub open spec fn zip_members_view(members: Seq<ZipMember>) -> Seq<ZipMemberView> {
    members.map_values(|m: ZipMember| m@)
}

/// The bytes that `flate2::read::GzDecoder` yields when it reads `data` to
/// the end, or `None` where it reports an error.
pub uninterp spec fn gunzip(data: Seq<u8>) -> Option<Seq<u8>>;

/// The bytes that `xz2::read::XzDecoder` yields when it reads `data` to the
/// end, or `None` where it reports an error.
pub uninterp spec fn unxz(data: Seq<u8>) -> Option<Seq<u8>>;

/// The bytes that `zstd::stream::decode_all` returns for `data`, or `None`
/// where it reports an error.
pub uninterp spec fn unzstd(data: Seq<u8>) -> Option<Seq<u8>>;

/// The members that `tar::Archive::entries` yields for the archive `data`, in
/// its order, or `None` where the iteration or a member's content reports an
/// error.
pub uninterp spec fn tar_members(data: Seq<u8>) -> Option<Seq<TarMemberView>>;

/// The members that `zip::ZipArchive` holds for the archive `data`, by index,
/// or `None` where opening the archive or a member reports an error.
pub uninterp spec fn zip_members(data: Seq<u8>) -> Option<Seq<ZipMemberView>>;

/// Reads `data` to the end through `flate2::read::GzDecoder`. Trusted: the
/// outcome is `gunzip(data)`; the error's text is whatever the decoder says.
#[verifier::external_body]
pub(crate) fn gz_decode(data: &[u8]) -> (decoded: Result<Vec<u8>, String>)
    ensures
        match decoded {
            Ok(bytes) => gunzip(data@) == Some(bytes@),
            Err(_) => gunzip(data@).is_none(),
        },
{
    let mut bytes = Vec::new();
    match std::io::Read::read_to_end(&mut flate2::read::GzDecoder::new(data), &mut bytes) {
        Ok(_) => Ok(bytes),
        Err(error) => Err(error.to_string()),
    }
}

/// Reads `data` to the end through `xz2::read::XzDecoder`. Trusted: the
/// outcome is `unxz(data)`.
#[verifier::external_body]
pub(crate) fn xz_decode(data: &[u8]) -> (decoded: Result<Vec<u8>, String>)
    ensures
        match decoded {
            Ok(bytes) => unxz(data@) == Some(bytes@),
            Err(_) => unxz(data@).is_none(),
        },
{
    let mut bytes = Vec::new();
    match std::io::Read::read_to_end(&mut xz2::read::XzDecoder::new(data), &mut bytes) {
        Ok(_) => Ok(bytes),
        Err(error) => Err(error.to_string()),
    }
}

/// Calls `zstd::stream::decode_all` on `data`. Trusted: the outcome is
/// `unzstd(data)`.
#[verifier::external_body]
pub(crate) fn zstd_decode(data: &[u8]) -> (decoded: Result<Vec<u8>, String>)
    ensures
        match decoded {
            Ok(bytes) => unzstd(data@) == Some(bytes@),
            Err(_) => unzstd(data@).is_none(),
        },
{
    zstd::stream::decode_all(data).map_err(|error| error.to_string())
}

/// `std::io::Error`: what a reader reports when it fails.
#[verifier::external_type_specification]
#[verifier::external_body]
pub struct ExIoError(std::io::Error);

/// The text of an I/O error, as its `Display` gives it. Trusted, and nothing
/// is claimed of the text.
#[verifier::external_body]
pub(crate) fn io_error_text(error: &std::io::Error) -> String {
    error.to_string()
}

/// Walks `tar::Archive::entries` over `data` and hands out each member's
/// path bytes, type byte, mode, modification time, link name and content.
/// Trusted: the outcome is `tar_members(data)`.
#[verifier::external_body]
pub(crate) fn tar_list(data: &[u8]) -> (listed: Result<Vec<TarMember>, std::io::Error>)
    ensures
        match listed {
            Ok(members) => tar_members(data@) == Some(tar_members_view(members@)),
            Err(_) => tar_members(data@).is_none(),
        },
{
    let mut members = Vec::new();
    for entry in tar::Archive::new(data).entries()? {
        let mut entry = entry?;
        let mut member = TarMember {
            name: entry.path_bytes().into_owned(),
            typeflag: entry.header().entry_type().as_byte(),
            mode: entry.header().mode().ok(),
            mtime: entry.header().mtime().ok(),
            link: entry.link_name_bytes().map(|name| name.into_owned()),
            data: Vec::new(),
        };
        std::io::Read::read_to_end(&mut entry, &mut member.data)?;
        members.push(member);
    }
    Ok(members)
}

/// Opens `data` with `zip::ZipArchive::new` and hands out, for each index,
/// the member's name, whether it is a directory or a symbolic link, its unix
/// mode and its content. Trusted: the outcome is `zip_members(data)`.
#[verifier::external_body]
pub(crate) fn zip_list(data: &[u8]) -> (listed: Result<Vec<ZipMember>, String>)
    ensures
        match listed {
            Ok(members) => zip_members(data@) == Some(zip_members_view(members@)),
            Err(_) => zip_members(data@).is_none(),
        },
{
    let mut members = Vec::new();
    let mut archive = zip::ZipArchive::new(std::io::Cursor::new(data)).map_err(|e| e.to_string())?;
    for index in 0..archive.len() {
        let mut file = archive.by_index(index).map_err(|error| error.to_string())?;
        let name = file.name().as_bytes().to_vec();
        let (directory, link, mode) = (file.is_dir(), file.is_symlink(), file.unix_mode());
        let mut data = Vec::new();
        std::io::Read::read_to_end(&mut file, &mut data).map_err(|error| error.to_string())?;
        members.push(ZipMember { name, directory, link, mode, data });
    }
    Ok(members)
}

} // verus!
