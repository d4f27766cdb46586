//! Resource bookkeeping: the font cache and its search paths.
//!
//! The manager stores font bytes by family name.  Reading font files from
//! disk is the caller's concern; the manager only keeps what was handed to
//! it, so every cache operation is plain data manipulation.

use vstd::prelude::*;

verus! {

/// A cached font: its family name, the path it was read from, and its bytes.
#[derive(Clone, Debug)]
pub struct FontInfo {
    pub family: String,
    pub path: String,
    pub data: Vec<u8>,
    pub size: usize,
}

/// A font cache with search paths and an optional default face.
pub struct FontManager {
    fonts: Vec<FontInfo>,
    search_paths: Vec<String>,
    default_font: Option<Vec<u8>>,
}

/// The sum of the cached fonts' recorded sizes.
pub open spec fn fonts_total_size(fonts: Seq<FontInfo>) -> int
    decreases fonts.len(),
{
    if fonts.len() == 0 {
        0
    } else {
        fonts_total_size(fonts.drop_last()) + fonts.last().size
    }
}

/// Every recorded size matches the stored bytes.
pub open spec fn fonts_wf(fonts: Seq<FontInfo>) -> bool {
    forall|i: int| 0 <= i < fonts.len() ==> (#[trigger] fonts[i]).size == fonts[i].data@.len()
}

/// No two cache entries share a family name.
pub open spec fn families_unique(fonts: Seq<FontInfo>) -> bool {
    forall|i: int, j: int|
        0 <= i < j < fonts.len() ==> (#[trigger] fonts[i]).family@ != (#[trigger] fonts[j]).family@
}

/// The first cache entry carrying this family, scanning from `from`.
pub open spec fn first_family_index(fonts: Seq<FontInfo>, fam: Seq<char>, from: int) -> Option<int>
    decreases fonts.len() - from,
{
    if from < 0 || from >= fonts.len() {
        None
    } else if fonts[from].family@ == fam {
        Some(from)
    } else {
        first_family_index(fonts, fam, from + 1)
    }
}

/// Skipping unmatched entries does not change which entry is first.
proof fn lemma_family_range(fonts: Seq<FontInfo>, fam: Seq<char>, j: int, i: int)
    requires
        0 <= j <= i <= fonts.len(),
        forall|t: int| j <= t < i ==> (#[trigger] fonts[t]).family@ != fam,
    ensures
        first_family_index(fonts, fam, j) == first_family_index(fonts, fam, i),
    decreases i - j,
{
    if j < i {
        assert(fonts[j].family@ != fam);
        lemma_family_range(fonts, fam, j + 1, i);
    }
}

impl FontManager {
    /// The cached fonts, in insertion order.
    pub closed spec fn fonts_view(&self) -> Seq<FontInfo> {
        self.fonts@
    }

    /// The search paths, in insertion order.
    pub closed spec fn paths_view(&self) -> Seq<String> {
        self.search_paths@
    }

    /// The default font's bytes, if one was set.
    pub closed spec fn default_view(&self) -> Option<Vec<u8>> {
        self.default_font
    }

    /// A manager with an empty cache, no default face, and the standard
    /// search paths registered.
    pub fn new() -> (m: FontManager)
        ensures
            m.fonts_view().len() == 0,
            m.paths_view().len() == 4,
            m.default_view() is None,
            fonts_wf(m.fonts_view()),
            families_unique(m.fonts_view()),
    {
        let mut m: FontManager = FontManager {
            fonts: Vec::new(),
            search_paths: Vec::new(),
            default_font: None,
        };
        m.add_system_font_paths();
        m
    }

    /// Registers the standard system and project font directories.
    fn add_system_font_paths(&mut self)
        ensures
            final(self).paths_view().len() == old(self).paths_view().len() + 4,
            final(self).fonts_view() == old(self).fonts_view(),
            final(self).default_view() == old(self).default_view(),
    {
        self.search_paths.push(String::from_str("/usr/share/fonts"));
        self.search_paths.push(String::from_str("/usr/local/share/fonts"));
        self.search_paths.push(String::from_str("fonts"));
        self.search_paths.push(String::from_str("assets/fonts"));
    }

    /// Adds a font search path.
    pub fn add_search_path(&mut self, path: String)
        ensures
            final(self).paths_view() == old(self).paths_view().push(path),
            final(self).fonts_view() == old(self).fonts_view(),
            final(self).default_view() == old(self).default_view(),
    {
        self.search_paths.push(path);
    }

    /// How many search paths are registered.
    pub fn search_path_count(&self) -> (n: usize)
        ensures
            n == self.paths_view().len(),
    {
        self.search_paths.len()
    }

    /// Stores a font's bytes under its family name: an entry already
    /// carrying the family is replaced in place, otherwise a new entry is
    /// appended, so one family never has two entries.  The caller reads the
    /// file; the manager only caches.
    pub fn insert_font(&mut self, family: String, path: String, data: Vec<u8>)
        requires
            fonts_wf(old(self).fonts_view()),
        ensures
            fonts_wf(final(self).fonts_view()),
            final(self).paths_view() == old(self).paths_view(),
            final(self).default_view() == old(self).default_view(),
            match first_family_index(old(self).fonts_view(), family@, 0) {
                Some(i) => {
                    &&& final(self).fonts_view().len() == old(self).fonts_view().len()
                    &&& final(self).fonts_view()[i].family == family
                    &&& final(self).fonts_view()[i].path == path
                    &&& final(self).fonts_view()[i].data == data
                    &&& forall|j: int|
                        0 <= j < old(self).fonts_view().len() && j != i
                            ==> final(self).fonts_view()[j] == old(self).fonts_view()[j]
                },
                Option::None => {
                    &&& final(self).fonts_view().len() == old(self).fonts_view().len() + 1
                    &&& final(self).fonts_view().last().family == family
                    &&& final(self).fonts_view().last().path == path
                    &&& final(self).fonts_view().last().data == data
                    &&& forall|j: int|
                        0 <= j < old(self).fonts_view().len() ==> final(self).fonts_view()[j]
                            == old(self).fonts_view()[j]
                },
            },
            families_unique(old(self).fonts_view()) ==> families_unique(final(self).fonts_view()),
    {
        let size: usize = data.len();
        let n: usize = self.fonts.len();
        let mut i: usize = 0;
        while i < n
            invariant
                0 <= i <= n,
                n == self.fonts@.len(),
                fonts_wf(self.fonts@),
                self.fonts@ == old(self).fonts@,
                self.search_paths@ == old(self).search_paths@,
                self.default_font == old(self).default_font,
                size == data@.len(),
                forall|t: int| 0 <= t < i ==> (#[trigger] self.fonts@[t]).family@ != family@,
            decreases n - i,
        {
            if self.fonts[i].family == family {
                proof {
                    lemma_family_range(self.fonts@, family@, 0, i as int);
                }
                let ghost new_entry = FontInfo { family, path, data, size };
                self.fonts.set(i, FontInfo { family, path, data, size });
                proof {
                    assert(fonts_wf(self.fonts@)) by {
                        assert forall|j: int|
                            0 <= j < self.fonts@.len() implies (#[trigger] self.fonts@[j]).size
                            == self.fonts@[j].data@.len() by {
                            if j != i {
                                assert(self.fonts@[j] == old(self).fonts@[j]);
                            } else {
                                assert(self.fonts@[j] == new_entry);
                                assert(new_entry.size == new_entry.data@.len());
                            }
                        }
                    }
                }
                return ;
            }
            i = i + 1;
        }
        proof {
            lemma_family_range(self.fonts@, family@, 0, n as int);
        }
        self.fonts.push(FontInfo { family, path, data, size });
        proof {
            if families_unique(old(self).fonts@) {
                assert(families_unique(self.fonts@)) by {
                    assert forall|a: int, b: int|
                        0 <= a < b < self.fonts@.len() implies (#[trigger] self.fonts@[a]).family@
                        != (#[trigger] self.fonts@[b]).family@ by {
                        if b == self.fonts@.len() - 1 {
                            assert(self.fonts@[a] == old(self).fonts@[a]);
                        } else {
                            assert(self.fonts@[a] == old(self).fonts@[a]);
                            assert(self.fonts@[b] == old(self).fonts@[b]);
                        }
                    }
                }
            }
        }
    }

    /// Sets the fallback face.
    pub fn set_default_font(&mut self, data: Vec<u8>)
        ensures
            final(self).default_view() == Some(data),
            final(self).fonts_view() == old(self).fonts_view(),
            final(self).paths_view() == old(self).paths_view(),
    {
        self.default_font = Some(data);
    }

    /// The fallback face's bytes, when one was set.
    pub fn get_default_font(&self) -> (r: Option<&Vec<u8>>)
        ensures
            r is Some <==> self.default_view() is Some,
            r matches Some(d) ==> self.default_view() == Some(*d),
    {
        match &self.default_font {
            Some(d) => Some(d),
            Option::None => None,
        }
    }

    /// Looks a cached font up by family (the first entry with that name).
    pub fn get_font(&self, family: &String) -> (r: Option<&Vec<u8>>)
        ensures
            r matches Some(d) ==> exists|i: int|
                0 <= i < self.fonts_view().len() && (#[trigger] self.fonts_view()[i]).family@
                    == family@ && self.fonts_view()[i].data == *d,
            r is None ==> forall|i: int|
                0 <= i < self.fonts_view().len() ==> (#[trigger] self.fonts_view()[i]).family@
                    != family@,
    {
        let n: usize = self.fonts.len();
        let mut i: usize = 0;
        while i < n
            invariant
                0 <= i <= n,
                n == self.fonts@.len(),
                forall|j: int| 0 <= j < i ==> (#[trigger] self.fonts@[j]).family@ != family@,
            decreases n - i,
        {
            if self.fonts[i].family == *family {
                proof {
                    assert((self.fonts_view()[i as int]).family@ == family@);
                }
                return Some(&self.fonts[i].data);
            }
            i = i + 1;
        }
        None
    }

    /// The cached families, in insertion order.
    pub fn cached_fonts(&self) -> (r: Vec<String>)
        ensures
            r@.len() == self.fonts_view().len(),
            forall|i: int| 0 <= i < r@.len() ==> r@[i]@ == (#[trigger] self.fonts_view()[i]).family@,
    {
        let n: usize = self.fonts.len();
        let mut out: Vec<String> = Vec::new();
        let mut i: usize = 0;
        while i < n
            invariant
                0 <= i <= n,
                n == self.fonts@.len(),
                out@.len() == i,
                forall|j: int| 0 <= j < i ==> out@[j]@ == (#[trigger] self.fonts@[j]).family@,
            decreases n - i,
        {
            out.push(self.fonts[i].family.clone());
            i = i + 1;
        }
        out
    }

    /// Empties the cache; search paths and the default face stay.
    pub fn clear_cache(&mut self)
        ensures
            final(self).fonts_view().len() == 0,
            final(self).paths_view() == old(self).paths_view(),
            final(self).default_view() == old(self).default_view(),
    {
        self.fonts.clear();
    }

    /// The number of cached fonts and their total size in bytes.
    pub fn cache_stats(&self) -> (r: (usize, usize))
        requires
            fonts_wf(self.fonts_view()),
            fonts_total_size(self.fonts_view()) <= usize::MAX,
        ensures
            r.0 == self.fonts_view().len(),
            r.1 == fonts_total_size(self.fonts_view()),
    {
        let n: usize = self.fonts.len();
        proof {
            lemma_total_size_nonneg(self.fonts@);
            assert(self.fonts@.subrange(0, 0) =~= Seq::<FontInfo>::empty());
            assert(fonts_total_size(Seq::<FontInfo>::empty()) == 0);
        }
        let mut total: usize = 0;
        let mut i: usize = 0;
        while i < n
            invariant
                0 <= i <= n,
                n == self.fonts@.len(),
                fonts_wf(self.fonts@),
                fonts_total_size(self.fonts@) <= usize::MAX,
                total == fonts_total_size(self.fonts@.subrange(0, i as int)),
                total <= fonts_total_size(self.fonts@),
            decreases n - i,
        {
            proof {
                assert(self.fonts@.subrange(0, i + 1).drop_last() =~= self.fonts@.subrange(
                    0,
                    i as int,
                ));
                lemma_total_size_prefix(self.fonts@, i + 1);
            }
            total = total + self.fonts[i].size;
            i = i + 1;
        }
        proof {
            assert(self.fonts@.subrange(0, n as int) =~= self.fonts@);
        }
        (n, total)
    }

    /// Removes the cached font with this family; reports whether one was
    /// there.  The removed entry is the first with the family; every other
    /// entry keeps its relative place, and in a family-unique cache the
    /// family is absent afterwards.
    pub fn remove_font(&mut self, family: &String) -> (removed: bool)
        requires
            fonts_wf(old(self).fonts_view()),
        ensures
            fonts_wf(final(self).fonts_view()),
            final(self).paths_view() == old(self).paths_view(),
            final(self).default_view() == old(self).default_view(),
            removed <==> first_family_index(old(self).fonts_view(), family@, 0) is Some,
            match first_family_index(old(self).fonts_view(), family@, 0) {
                Some(i) => {
                    &&& final(self).fonts_view().len() == old(self).fonts_view().len() - 1
                    &&& forall|j: int|
                        0 <= j < i ==> final(self).fonts_view()[j] == old(self).fonts_view()[j]
                    &&& forall|j: int|
                        i <= j < final(self).fonts_view().len() ==> final(self).fonts_view()[j]
                            == old(self).fonts_view()[j + 1]
                },
                Option::None => final(self).fonts_view() == old(self).fonts_view(),
            },
            families_unique(old(self).fonts_view()) ==> forall|j: int|
                0 <= j < final(self).fonts_view().len()
                    ==> (#[trigger] final(self).fonts_view()[j]).family@ != family@,
            families_unique(old(self).fonts_view()) ==> families_unique(final(self).fonts_view()),
    {
        let n: usize = self.fonts.len();
        let mut i: usize = 0;
        while i < n
            invariant
                0 <= i <= n,
                n == self.fonts@.len(),
                fonts_wf(self.fonts@),
                self.fonts@ == old(self).fonts@,
                self.search_paths@ == old(self).search_paths@,
                self.default_font == old(self).default_font,
                forall|t: int| 0 <= t < i ==> (#[trigger] self.fonts@[t]).family@ != family@,
            decreases n - i,
        {
            if self.fonts[i].family == *family {
                proof {
                    lemma_family_range(self.fonts@, family@, 0, i as int);
                }
                self.fonts.remove(i);
                proof {
                    assert(fonts_wf(self.fonts@)) by {
                        assert forall|j: int|
                            0 <= j < self.fonts@.len() implies (#[trigger] self.fonts@[j]).size
                            == self.fonts@[j].data@.len() by {
                            if j < i {
                                assert(self.fonts@[j] == old(self).fonts@[j]);
                            } else {
                                assert(self.fonts@[j] == old(self).fonts@[j + 1]);
                            }
                        }
                    }
                    if families_unique(old(self).fonts@) {
                        assert forall|j: int|
                            0 <= j < self.fonts@.len() implies (#[trigger] self.fonts@[j]).family@
                            != family@ by {
                            if j < i {
                                assert(self.fonts@[j] == old(self).fonts@[j]);
                            } else {
                                assert(self.fonts@[j] == old(self).fonts@[j + 1]);
                                assert(old(self).fonts@[i as int].family@ == family@);
                            }
                        }
                        assert(families_unique(self.fonts@)) by {
                            assert forall|a: int, b: int|
                                0 <= a < b < self.fonts@.len() implies (#[trigger] self.fonts@[a]).family@
                                != (#[trigger] self.fonts@[b]).family@ by {
                                let oa: int = if a < i { a } else { a + 1 };
                                let ob: int = if b < i { b } else { b + 1 };
                                assert(self.fonts@[a] == old(self).fonts@[oa]);
                                assert(self.fonts@[b] == old(self).fonts@[ob]);
                            }
                        }
                    }
                }
                return true;
            }
            i = i + 1;
        }
        proof {
            lemma_family_range(self.fonts@, family@, 0, n as int);
        }
        false
    }
}

/// Sizes are nonnegative, so the total is too.
proof fn lemma_total_size_nonneg(fonts: Seq<FontInfo>)
    ensures
        fonts_total_size(fonts) >= 0,
    decreases fonts.len(),
{
    if fonts.len() > 0 {
        lemma_total_size_nonneg(fonts.drop_last());
    }
}

/// The total size of a prefix, unfolded by one entry.
proof fn lemma_total_size_prefix(fonts: Seq<FontInfo>, hi: int)
    requires
        0 < hi <= fonts.len(),
        fonts_wf(fonts),
    ensures
        fonts_total_size(fonts.subrange(0, hi)) == fonts_total_size(fonts.subrange(0, hi - 1))
            + fonts[hi - 1].size,
        fonts_total_size(fonts.subrange(0, hi)) <= fonts_total_size(fonts),
    decreases fonts.len() - hi,
{
    assert(fonts.subrange(0, hi).drop_last() =~= fonts.subrange(0, hi - 1));
    assert(fonts.subrange(0, hi).last() == fonts[hi - 1]);
    if hi == fonts.len() {
        assert(fonts.subrange(0, hi) =~= fonts);
    } else {
        lemma_total_size_prefix(fonts, hi + 1);
        assert(fonts[hi].size >= 0);
    }
}

} // verus!
