//! The topic storage engine: rolling data and index file pairs, append
//! semantics, offset discipline and latest-generation resolution.
//!
//! The store is the state machine of the files: it holds the current
//! generation's contents and cursors, and every operation says exactly how
//! they change.  Reading the directory and moving bytes to and from disk and
//! sockets happens outside; callers hand directory listings and file
//! contents in, and take the bytes to write or send out.
use vstd::bytes::{spec_u64_from_le_bytes, u64_to_le_bytes};
use vstd::pervasive::VecAdditionalExecFns;
use vstd::prelude::*;
use vstd::string::{StrSliceExecFns, StringExecFns};

use crate::config::{Config, TopicConfig};
use crate::er::Er;
use crate::hex::{format_hex16, hex16, hex_value, parse_hex_u64, valid_hex_u64};
use crate::tcp::RecordType;

verus! {

/// What is wrong with one directory entry, if anything: an empty name is
/// malformed, and a name starting with `d` or `i` must carry a hex suffix
/// that fits a `u64`.
pub open spec fn entry_error(name: Seq<char>) -> Option<Er> {
    if name.len() == 0 {
        Some(Er::BadFileName)
    } else if (name[0] == 'd' || name[0] == 'i') && !valid_hex_u64(name.skip(1)) {
        Some(Er::BadOffset)
    } else {
        None
    }
}

/// The largest generation suffix among well-formed `d`/`i` entries, 0 when
/// there are none.
pub open spec fn largest_generation(entries: Seq<Seq<char>>) -> int
    decreases entries.len(),
{
    if entries.len() == 0 {
        0
    } else {
        let rest = largest_generation(entries.drop_last());
        let e = entries.last();
        if e.len() > 0 && (e[0] == 'd' || e[0] == 'i') && hex_value(e.skip(1)) > rest {
            hex_value(e.skip(1))
        } else {
            rest
        }
    }
}

/// Scans a directory listing for the largest generation suffix among entries
/// named `d<hex>` or `i<hex>`; 0 when there are none.  An empty entry name
/// fails with `BadFileName`, and a `d`/`i` entry whose suffix is not a hex
/// number fitting a `u64` fails with `BadOffset`; the first offending entry
/// decides.
pub fn latest_generation(entries: &Vec<String>) -> (r: Result<u64, Er>)
    ensures
        r matches Ok(g) ==> dir_entries_ok(entries.deep_view()) && g == largest_generation(
            entries.deep_view(),
        ),
        r matches Err(e) ==> exists|i: int|
            0 <= i < entries.deep_view().len() && entry_error(
                #[trigger] entries.deep_view()[i],
            ) == Some(e) && (forall|j: int|
                0 <= j < i ==> entry_error(#[trigger] entries.deep_view()[j]) is None),
    {
    let ghost dv = entries.deep_view();
    let mut best: u64 = 0;
    let mut i: usize = 0;
    while i < entries.len()
        invariant
            i <= entries@.len(),
            dv == entries.deep_view(),
            dv.len() == entries@.len(),
            forall|j: int| 0 <= j < entries@.len() ==> dv[j] == #[trigger] entries@[j]@,
            best == largest_generation(dv.take(i as int)),
            forall|j: int| 0 <= j < i ==> entry_error(#[trigger] dv[j]) is None,
        decreases entries@.len() - i,
    {
        let name: &String = &entries[i];
        proof {
            assert(dv[i as int] == name@);
        }
        let n = name.as_str().unicode_len();
        if n == 0 {
            return Err(Er::BadFileName);
        }
        let c0 = name.as_str().get_char(0);
        if c0 == 'd' || c0 == 'i' {
            match parse_hex_u64(name.as_str(), 1) {
                Ok(v) => {
                    proof {
                        assert(name@.skip(1) == dv[i as int].skip(1));
                        assert(entry_error(dv[i as int]) is None);
                    }
                    if v > best {
                        best = v;
                    }
                },
                Err(e) => {
                    proof {
                        assert(entry_error(dv[i as int]) == Some(Er::BadOffset));
                    }
                    return Err(e);
                },
            }
        }
        proof {
            assert(dv.take(i + 1).drop_last() =~= dv.take(i as int));
            assert(dv.take(i + 1).last() == name@);
        }
        i = i + 1;
    }
    proof {
        assert(dv.take(entries@.len() as int) =~= dv);
    }
    Ok(best)
}

/// The path of one generation file: `<folder>/<name>/<prefix><hex16(gen)>`.
pub open spec fn file_path(folder: Seq<char>, name: Seq<char>, prefix: char, gen: u64) -> Seq<
    char,
> {
    folder + seq!['/'] + name + seq!['/'] + seq![prefix] + hex16(gen)
}

/// The bare name of one generation file: `<prefix><hex16(gen)>`.
pub open spec fn file_name(prefix: char, gen: u64) -> Seq<char> {
    seq![prefix] + hex16(gen)
}

/// Builds the one-character string for a file prefix.
fn prefix_str(prefix: char) -> (r: &'static str)
    requires
        prefix == 'd' || prefix == 'i',
    ensures
        r@ == seq![prefix],
{
    proof {
        reveal_strlit("d");
        reveal_strlit("i");
    }
    if prefix == 'd' {
        "d"
    } else {
        "i"
    }
}

/// Builds the bare name of one generation file.
fn make_file_name(prefix: char, gen: u64) -> (r: String)
    requires
        prefix == 'd' || prefix == 'i',
    ensures
        r@ == file_name(prefix, gen),
{
    let mut s = String::from_str(prefix_str(prefix));
    let hex = format_hex16(gen);
    s.append(hex.as_str());
    proof {
        assert(s@ =~= file_name(prefix, gen));
    }
    s
}

/// Builds the path of one generation file.
fn make_file_path(folder: &str, name: &str, prefix: char, gen: u64) -> (r: String)
    requires
        prefix == 'd' || prefix == 'i',
    ensures
        r@ == file_path(folder@, name@, prefix, gen),
{
    proof {
        reveal_strlit("/");
    }
    let mut s = String::from_str(folder);
    s.append("/");
    s.append(name);
    s.append("/");
    let bare = make_file_name(prefix, gen);
    s.append(bare.as_str());
    proof {
        assert(s@ =~= file_path(folder@, name@, prefix, gen));
    }
    s
}

/// One topic's store: the current generation's data and index file, the
/// commit counter, the fan-out cursors and the follower set.
///
/// The ghost fields carry the history of the current generation: the file
/// contents found at open or switch time (`base_data`, `base_index`), the
/// payloads committed since (`records`) and the bytes of the record in
/// progress (`pending`).
pub struct Topic {
    /// Count of committed records, continued from the index file's size.
    pub index: u64,
    /// Contents of the current generation's data file.
    pub data_file: Vec<u8>,
    /// Contents of the current generation's index file.
    pub index_file: Vec<u8>,
    /// Path of the current data file.
    pub data_file_name: String,
    /// Path of the current index file.
    pub index_file_name: String,
    /// The current generation number.
    pub generation: u64,
    /// The session currently streaming a record, if any.
    pub current_producer: Option<u32>,
    /// Whether the commit that sealed this generation has happened: rolling
    /// is decided at `end_rec`, as the storage design has it, and only the
    /// opening of the fresh pair waits for the next append, so the sealed
    /// pair's final contents stay readable until the caller has persisted
    /// them.
    pub full: bool,
    /// Fan-out cursor: data bytes up to here have been sent to followers.
    pub last_data_offset: u64,
    /// Fan-out cursor: index bytes up to here have been sent to followers.
    pub last_index_offset: u64,
    /// This topic's configuration.
    pub config: TopicConfig,
    /// Session ids subscribed to this topic, each at most once.
    pub followers: Vec<u32>,
    /// The commit count when this generation was opened.
    pub index_base: Ghost<u64>,
    /// Data file contents found when this generation was opened.
    pub base_data: Ghost<Seq<u8>>,
    /// Index file contents found when this generation was opened.
    pub base_index: Ghost<Seq<u8>>,
    /// Payloads committed to this generation since it was opened.
    pub records: Ghost<Seq<Seq<u8>>>,
    /// Bytes of the record in progress, appended but not yet committed.
    pub pending: Ghost<Seq<u8>>,
}

impl Topic {
    /// The store's invariant: the data file is the base plus the committed
    /// payloads plus the record in progress; the index file is the base plus
    /// one 8-byte entry per committed record, each entry the data-file
    /// offset just past its record's end; entry counts, the commit counter
    /// and the fan-out cursors agree with the files; followers are unique.
    pub open spec fn wf(self) -> bool {
        &&& self.data_file@ == self.base_data@ + self.records@.flatten_alt() + self.pending@
        &&& self.base_index@.len() % 8 == 0
        &&& self.index_file@.len() == self.base_index@.len() + 8 * self.records@.len()
        &&& self.index_file@.subrange(0, self.base_index@.len() as int) == self.base_index@
        &&& (forall|k: int|
            0 <= k < self.records@.len() ==> spec_u64_from_le_bytes(
                self.index_file@.subrange(
                    self.base_index@.len() + 8 * k,
                    self.base_index@.len() + 8 * k + 8,
                ),
            ) == self.base_data@.len() + #[trigger] self.records@.take(k + 1).flatten_alt().len())
        &&& self.index == self.index_base@ + self.records@.len()
        &&& (self.full <==> (self.config.file_mask > 0 && self.index as nat % records_per_file(
            self.config.file_mask,
        ) == 0 && self.index > self.index_base@))
        &&& (self.full ==> self.pending@.len() == 0)
        &&& self.last_data_offset <= self.data_file@.len()
        &&& self.last_index_offset <= self.index_file@.len()
        &&& (forall|i: int, j: int|
            0 <= i < j < self.followers@.len() ==> #[trigger] self.followers@[i]
                != #[trigger] self.followers@[j])
    }

    /// Opens a topic on a directory listing and the contents of its current
    /// generation's files.  The largest generation suffix among `d`/`i`
    /// entries is the one opened (0 when the directory holds none); in the
    /// consumer role both files of that generation must be listed, and a
    /// missing one fails with `CantOpenFile`.  Producers create absent
    /// files, beginning empty.  The commit counter continues from the index
    /// file's size, and the fan-out cursors start at the file ends so
    /// consumers begin at the tail.
    pub fn open(
        config: TopicConfig,
        is_producer: bool,
        entries: &Vec<String>,
        data_contents: Vec<u8>,
        index_contents: Vec<u8>,
    ) -> (r: Result<Topic, Er>)
        requires
            index_contents@.len() % 8 == 0,
        ensures
            r matches Ok(t) ==> {
                &&& dir_entries_ok(entries.deep_view())
                &&& t.wf()
                &&& t.generation == largest_generation(entries.deep_view())
                &&& t.data_file@ == data_contents@
                &&& t.index_file@ == index_contents@
                &&& t.records@.len() == 0
                &&& t.pending@.len() == 0
                &&& t.index == index_contents@.len() / 8
                &&& t.data_file_name@ == file_path(
                    config.folder@,
                    config.topic_name@,
                    'd',
                    t.generation,
                )
                &&& t.index_file_name@ == file_path(
                    config.folder@,
                    config.topic_name@,
                    'i',
                    t.generation,
                )
                &&& t.last_data_offset == data_contents@.len()
                &&& t.last_index_offset == index_contents@.len()
                &&& t.config == config
                &&& t.followers@.len() == 0
                &&& t.current_producer is None
                &&& !t.full
            },
            r is Ok <==> dir_entries_ok(entries.deep_view()) && (is_producer || pair_present(
                entries.deep_view(),
            )),
            r matches Err(e) ==> e == Er::BadFileName || e == Er::BadOffset || (e
                == Er::CantOpenFile && !is_producer),
    {
        let gen = match latest_generation(entries) {
            Ok(g) => g,
            Err(e) => {
                proof {
                    assert(!dir_entries_ok(entries.deep_view()));
                }
                return Err(e);
            },
        };

        if !is_producer {
            let d_name = make_file_name('d', gen);
            let i_name = make_file_name('i', gen);
            let d_here = contains_name(entries, &d_name);
            let i_here = contains_name(entries, &i_name);
            proof {
                assert(gen as int == largest_generation(entries.deep_view()));
            }
            if !(d_here && i_here) {
                return Err(Er::CantOpenFile);
            }
        }

        let f_data_name = make_file_path(config.folder.as_str(), config.topic_name.as_str(), 'd', gen);
        let f_index_name = make_file_path(
            config.folder.as_str(),
            config.topic_name.as_str(),
            'i',
            gen,
        );

        let idx = (index_contents.len() / 8) as u64;
        let last_data = data_contents.len() as u64;
        let last_index = index_contents.len() as u64;
        let ghost base_d = data_contents@;
        let ghost base_i = index_contents@;

        let t = Topic {
            index: idx,
            data_file: data_contents,
            index_file: index_contents,
            data_file_name: f_data_name,
            index_file_name: f_index_name,
            generation: gen,
            current_producer: None,
            full: false,
            last_data_offset: last_data,
            last_index_offset: last_index,
            config,
            followers: Vec::new(),
            index_base: Ghost(idx),
            base_data: Ghost(base_d),
            base_index: Ghost(base_i),
            records: Ghost(Seq::empty()),
            pending: Ghost(Seq::empty()),
        };
        proof {
            assert(t.data_file@ =~= t.base_data@ + t.records@.flatten_alt() + t.pending@);
            assert(t.index_file@.subrange(0, t.base_index@.len() as int) =~= t.base_index@);
        }
        Ok(t)
    }
}

/// How many records one generation holds: `16^file_mask`.  A mask of 0
/// stands for a single pair of files that never rolls.
pub open spec fn records_per_file(mask: u8) -> nat {
    vstd::arithmetic::power2::pow2((4 * mask) as nat)
}

/// Whether a commit count sits on a generation boundary, so the store rolls
/// to a fresh file pair.
pub open spec fn rolls(index_after: u64, mask: u8) -> bool {
    mask > 0 && index_after as nat % records_per_file(mask) == 0
}

impl Topic {
    /// Appends payload bytes of the record in progress to the data file and
    /// reports how many were written.  Only one session may stream a record
    /// at a time: the first write claims the topic, another session's write
    /// is refused with `NotReady`, and `end_rec` releases the claim.  When
    /// the previous commit filled the generation, the append first opens the
    /// next generation's fresh pair.
    pub fn write(&mut self, producer: u32, slice: &[u8]) -> (r: Result<usize, Er>)
        requires
            old(self).wf(),
            old(self).full ==> old(self).generation < u64::MAX,
        ensures
            final(self).wf(),
            (old(self).current_producer matches Some(p) && p != producer) ==> r == Err::<
                usize,
                Er,
            >(Er::NotReady) && *final(self) == *old(self),
            !(old(self).current_producer matches Some(p) && p != producer) ==> {
                &&& r == Ok::<usize, Er>(slice@.len() as usize)
                &&& final(self).pending@ == old(self).pending@ + slice@
                &&& final(self).current_producer == Some(producer)
                &&& final(self).index == old(self).index
                &&& !final(self).full
                &&& final(self).config == old(self).config
                &&& final(self).followers@ == old(self).followers@
                &&& if old(self).full {
                    &&& final(self).generation == old(self).generation + 1
                    &&& final(self).data_file@ == slice@
                    &&& final(self).index_file@.len() == 0
                    &&& final(self).records@.len() == 0
                    &&& final(self).data_file_name@ == file_path(
                        old(self).config.folder@,
                        old(self).config.topic_name@,
                        'd',
                        (old(self).generation + 1) as u64,
                    )
                    &&& final(self).index_file_name@ == file_path(
                        old(self).config.folder@,
                        old(self).config.topic_name@,
                        'i',
                        (old(self).generation + 1) as u64,
                    )
                    &&& final(self).last_data_offset == 0
                    &&& final(self).last_index_offset == 0
                } else {
                    &&& final(self).generation == old(self).generation
                    &&& final(self).data_file@ == old(self).data_file@ + slice@
                    &&& final(self).index_file@ == old(self).index_file@
                    &&& final(self).records@ == old(self).records@
                    &&& final(self).data_file_name@ == old(self).data_file_name@
                    &&& final(self).index_file_name@ == old(self).index_file_name@
                    &&& final(self).last_data_offset == old(self).last_data_offset
                    &&& final(self).last_index_offset == old(self).last_index_offset
                }
            },
    {
        let claimed = match self.current_producer {
            Some(p) => p,
            None => producer,
        };
        if claimed != producer {
            return Err(Er::NotReady);
        }
        if self.full {
            self.roll();
            proof {
                assert(self.data_file@ =~= Seq::<u8>::empty());
            }
        }
        self.current_producer = Some(producer);
        self.data_file.extend_from_slice(slice);
        self.pending = Ghost(self.pending@.add(slice@));
        proof {
            if old(self).full {
                assert(self.data_file@ =~= slice@);
                assert(self.pending@ =~= old(self).pending@ + slice@);
            } else {
                assert(self.data_file@ =~= old(self).data_file@ + slice@);
            }
            assert(self.data_file@ =~= self.base_data@ + self.records@.flatten_alt()
                + self.pending@);
        }
        Ok(slice.len())
    }

    /// Commits the record in progress: writes the data file's end position
    /// as one 8-byte little-endian index entry, counts the record, releases
    /// the producer claim, and returns the record's index.  A commit that
    /// brings the count to a generation boundary rolls the store: the commit
    /// itself seals the generation, and the next append writes to the fresh
    /// pair with the suffix one above.  Only the opening of that pair is
    /// deferred, so the sealed pair's final contents — this commit's entry
    /// included — stay readable until the caller has persisted them.
    pub fn end_rec(&mut self) -> (r: Result<u64, Er>)
        requires
            old(self).wf(),
            old(self).index < u64::MAX,
            old(self).full ==> old(self).generation < u64::MAX,
            old(self).index_file@.len() + 8 <= usize::MAX,
        ensures
            final(self).wf(),
            r == Ok::<u64, Er>(old(self).index),
            final(self).index == old(self).index + 1,
            final(self).current_producer is None,
            final(self).config == old(self).config,
            final(self).followers@ == old(self).followers@,
            final(self).pending@ == Seq::<u8>::empty(),
            final(self).full == rolls((old(self).index + 1) as u64, old(self).config.file_mask),
            !old(self).full ==> {
                &&& final(self).generation == old(self).generation
                &&& final(self).data_file@ == old(self).data_file@
                &&& final(self).index_file@ == old(self).index_file@
                    + vstd::bytes::spec_u64_to_le_bytes(old(self).data_file@.len() as u64)
                &&& final(self).records@ == old(self).records@.push(old(self).pending@)
                &&& final(self).data_file_name@ == old(self).data_file_name@
                &&& final(self).index_file_name@ == old(self).index_file_name@
                &&& final(self).last_data_offset == old(self).last_data_offset
                &&& final(self).last_index_offset == old(self).last_index_offset
            },
            old(self).full ==> {
                // An empty record straight after a filled generation opens
                // the next pair and is its first entry.
                &&& final(self).generation == old(self).generation + 1
                &&& final(self).data_file@.len() == 0
                &&& final(self).index_file@ == vstd::bytes::spec_u64_to_le_bytes(0u64)
                &&& final(self).data_file_name@ == file_path(
                    old(self).config.folder@,
                    old(self).config.topic_name@,
                    'd',
                    (old(self).generation + 1) as u64,
                )
                &&& final(self).index_file_name@ == file_path(
                    old(self).config.folder@,
                    old(self).config.topic_name@,
                    'i',
                    (old(self).generation + 1) as u64,
                )
                &&& final(self).last_data_offset == 0
                &&& final(self).last_index_offset == 0
            },
    {
        if self.full {
            self.roll();
        }
        let ghost pre = *self;
        let idx = self.index;
        self.index = self.index + 1;

        let file_position = self.data_file.len() as u64;
        let mut entry = u64_to_le_bytes(file_position);
        self.index_file.append(&mut entry);
        self.current_producer = None;
        self.records = Ghost(self.records@.push(self.pending@));
        self.pending = Ghost(Seq::empty());

        proof {
            vstd::bytes::lemma_auto_spec_u64_to_from_le_bytes();
            let rs = self.records@;
            assert(rs.drop_last() =~= pre.records@);
            assert(rs.flatten_alt() == rs.drop_last().flatten_alt() + rs.last());
            assert(self.data_file@ =~= self.base_data@ + rs.flatten_alt() + self.pending@);
            assert(self.index_file@.subrange(0, self.base_index@.len() as int)
                =~= self.base_index@);
            assert forall|k: int| 0 <= k < rs.len() implies spec_u64_from_le_bytes(
                self.index_file@.subrange(
                    self.base_index@.len() + 8 * k,
                    self.base_index@.len() + 8 * k + 8,
                ),
            ) == self.base_data@.len() + #[trigger] rs.take(k + 1).flatten_alt().len() by {
                if k < rs.len() - 1 {
                    assert(self.index_file@.subrange(
                        self.base_index@.len() + 8 * k,
                        self.base_index@.len() + 8 * k + 8,
                    ) =~= pre.index_file@.subrange(
                        pre.base_index@.len() + 8 * k,
                        pre.base_index@.len() + 8 * k + 8,
                    ));
                    assert(rs.take(k + 1) =~= pre.records@.take(k + 1));
                } else {
                    assert(self.index_file@.subrange(
                        self.base_index@.len() + 8 * k,
                        self.base_index@.len() + 8 * k + 8,
                    ) =~= vstd::bytes::spec_u64_to_le_bytes(pre.data_file@.len() as u64));
                    assert(rs.take(k + 1) =~= rs);
                }
            }
            if old(self).full {
                assert(self.index_file@ =~= vstd::bytes::spec_u64_to_le_bytes(0u64));
            }
        }

        // Mark the generation full when the count reaches its boundary.
        let mask = self.config.file_mask;
        self.full = false;
        if mask > 0 {
            let shift = 4 * (mask as u64);
            if shift < 64 {
                proof {
                    vstd::bits::lemma_u64_pow2_no_overflow(shift as nat);
                    vstd::bits::lemma_u64_shl_is_mul(1u64, shift);
                }
                let rpf: u64 = 1u64 << shift;
                if self.index % rpf == 0 {
                    self.full = true;
                }
            } else {
                proof {
                    vstd::arithmetic::power2::lemma2_to64();
                    vstd::arithmetic::power2::lemma2_to64_rest();
                    if shift > 64 {
                        vstd::arithmetic::power2::lemma_pow2_strictly_increases(
                            64,
                            shift as nat,
                        );
                    }
                    vstd::arithmetic::div_mod::lemma_small_mod(
                        self.index as nat,
                        records_per_file(mask),
                    );
                    assert(self.index > 0);
                    assert(!rolls(self.index, mask));
                }
            }
        }
        Ok(idx)
    }

    /// Replaces the store's files with the next generation's fresh, empty
    /// pair.
    fn roll(&mut self)
        requires
            old(self).wf(),
            old(self).generation < u64::MAX,
        ensures
            final(self).wf(),
            final(self).generation == old(self).generation + 1,
            final(self).data_file@.len() == 0,
            final(self).index_file@.len() == 0,
            final(self).records@.len() == 0,
            final(self).pending@ == Seq::<u8>::empty(),
            final(self).data_file_name@ == file_path(
                old(self).config.folder@,
                old(self).config.topic_name@,
                'd',
                (old(self).generation + 1) as u64,
            ),
            final(self).index_file_name@ == file_path(
                old(self).config.folder@,
                old(self).config.topic_name@,
                'i',
                (old(self).generation + 1) as u64,
            ),
            final(self).last_data_offset == 0,
            final(self).last_index_offset == 0,
            final(self).index == old(self).index,
            final(self).current_producer == old(self).current_producer,
            final(self).config == old(self).config,
            final(self).followers@ == old(self).followers@,
            !final(self).full,
    {
        self.full = false;
        self.generation = self.generation + 1;
        self.data_file_name = make_file_path(
            self.config.folder.as_str(),
            self.config.topic_name.as_str(),
            'd',
            self.generation,
        );
        self.index_file_name = make_file_path(
            self.config.folder.as_str(),
            self.config.topic_name.as_str(),
            'i',
            self.generation,
        );
        self.data_file = Vec::new();
        self.index_file = Vec::new();
        self.last_data_offset = 0;
        self.last_index_offset = 0;
        self.index_base = Ghost(self.index);
        self.base_data = Ghost(Seq::empty());
        self.base_index = Ghost(Seq::empty());
        self.records = Ghost(Seq::empty());
        self.pending = Ghost(Seq::empty());
        proof {
            assert(self.data_file@ =~= self.base_data@ + self.records@.flatten_alt()
                + self.pending@);
            assert(self.index_file@.subrange(0, 0) =~= self.base_index@);
        }
    }
}

impl Topic {
    /// Mirrors bytes the producer appended to the data file, on the
    /// consumer side of the filesystem.
    pub fn ingest_data(&mut self, bytes: &[u8])
        requires
            old(self).wf(),
            old(self).records@.len() == 0,
            old(self).pending@.len() == 0,
        ensures
            final(self).wf(),
            final(self).records@.len() == 0,
            final(self).pending@.len() == 0,
            final(self).data_file@ == old(self).data_file@ + bytes@,
            *final(self) == (Topic {
                data_file: final(self).data_file,
                base_data: final(self).base_data,
                ..*old(self)
            }),
    {
        self.data_file.extend_from_slice(bytes);
        self.base_data = Ghost(self.base_data@.add(bytes@));
        proof {
            assert(self.data_file@ =~= old(self).data_file@ + bytes@);
            assert(self.data_file@ =~= self.base_data@ + self.records@.flatten_alt()
                + self.pending@);
        }
    }

    /// Mirrors whole 8-byte entries the producer appended to the index file,
    /// on the consumer side of the filesystem.
    pub fn ingest_index(&mut self, bytes: &[u8])
        requires
            old(self).wf(),
            old(self).records@.len() == 0,
            old(self).pending@.len() == 0,
            bytes@.len() % 8 == 0,
        ensures
            final(self).wf(),
            final(self).records@.len() == 0,
            final(self).pending@.len() == 0,
            final(self).index_file@ == old(self).index_file@ + bytes@,
            *final(self) == (Topic {
                index_file: final(self).index_file,
                base_index: final(self).base_index,
                ..*old(self)
            }),
    {
        self.index_file.extend_from_slice(bytes);
        self.base_index = Ghost(self.base_index@.add(bytes@));
        proof {
            assert(self.index_file@ =~= old(self).index_file@ + bytes@);
            assert(self.index_file@.subrange(0, self.base_index@.len() as int)
                =~= self.base_index@);
        }
    }

    /// How many bytes a read of `buf.len()` bytes at `start` returns from a
    /// file of length `len`: what is there, capped by the buffer.
    pub open spec fn read_amount(len: int, start: u64, buf_len: int) -> int {
        if start >= len {
            0
        } else if len - start <= buf_len {
            len - start
        } else {
            buf_len
        }
    }

    /// Reads index-file bytes at `start` into the front of `buf`, as many as
    /// are there and fit, and reports the count.
    pub fn read_index_into(&mut self, buf: &mut Vec<u8>, start: u64) -> (r: Result<usize, Er>)
        requires
            old(self).wf(),
        ensures
            *final(self) == *old(self),
            final(buf)@.len() == old(buf)@.len(),
            r matches Ok(n) && n == Self::read_amount(
                old(self).index_file@.len() as int,
                start,
                old(buf)@.len() as int,
            ),
            forall|j: int|
                0 <= j < r->Ok_0 ==> final(buf)@[j] == old(self).index_file@[start + j],
            forall|j: int| r->Ok_0 <= j < old(buf)@.len() ==> final(buf)@[j] == old(buf)@[j],
    {
        copy_from(&self.index_file, buf, start)
    }

    /// Reads data-file bytes at `start` into the front of `buf`, as many as
    /// are there and fit, and reports the count.
    pub fn read_data_into(&mut self, buf: &mut Vec<u8>, start: u64) -> (r: Result<usize, Er>)
        requires
            old(self).wf(),
        ensures
            *final(self) == *old(self),
            final(buf)@.len() == old(buf)@.len(),
            r matches Ok(n) && n == Self::read_amount(
                old(self).data_file@.len() as int,
                start,
                old(buf)@.len() as int,
            ),
            forall|j: int| 0 <= j < r->Ok_0 ==> final(buf)@[j] == old(self).data_file@[start + j],
            forall|j: int| r->Ok_0 <= j < old(buf)@.len() ==> final(buf)@[j] == old(buf)@[j],
    {
        copy_from(&self.data_file, buf, start)
    }

    /// Reads the index bytes not yet surfaced, rounded down to whole 8-byte
    /// entries, into the front of `buf`; returns the offset they start at
    /// and their count, and moves the cursor past them, so no byte is ever
    /// surfaced twice.
    pub fn read_index_latest(&mut self, buf: &mut Vec<u8>) -> (r: Result<(u64, usize), Er>)
        requires
            old(self).wf(),
        ensures
            final(self).wf(),
            ({
                let avail = Self::read_amount(
                    old(self).index_file@.len() as int,
                    old(self).last_index_offset,
                    old(buf)@.len() as int,
                );
                let n = avail - (avail % 8);
                &&& r == Ok::<(u64, usize), Er>((old(self).last_index_offset, n as usize))
                &&& final(self).last_index_offset == old(self).last_index_offset + n
                &&& (forall|j: int|
                    0 <= j < avail ==> final(buf)@[j] == old(self).index_file@[old(
                        self,
                    ).last_index_offset + j])
                &&& (forall|j: int| avail <= j < old(buf)@.len() ==> final(buf)@[j] == old(buf)@[j])
                &&& final(buf)@.len() == old(buf)@.len()
                &&& *final(self) == (Topic {
                    last_index_offset: final(self).last_index_offset,
                    ..*old(self)
                })
            }),
    {
        let mut size = match self.read_index_into(buf, self.last_index_offset) {
            Ok(n) => n,
            Err(e) => {
                return Err(e);
            },
        };
        size = size - (size % 8);
        let result = (self.last_index_offset, size);
        let cap = self.index_file.len();
        proof {
            if size > 0 {
                assert(self.last_index_offset + size <= cap);
            }
        }
        self.last_index_offset = self.last_index_offset + size as u64;
        Ok(result)
    }

    /// Reads the data bytes not yet surfaced into the front of `buf`;
    /// returns the offset they start at and their count, and moves the
    /// cursor past them, so no byte is ever surfaced twice.
    pub fn read_data_latest(&mut self, buf: &mut Vec<u8>) -> (r: Result<(u64, usize), Er>)
        requires
            old(self).wf(),
        ensures
            final(self).wf(),
            ({
                let n = Self::read_amount(
                    old(self).data_file@.len() as int,
                    old(self).last_data_offset,
                    old(buf)@.len() as int,
                );
                &&& r == Ok::<(u64, usize), Er>((old(self).last_data_offset, n as usize))
                &&& final(self).last_data_offset == old(self).last_data_offset + n
                &&& (forall|j: int|
                    0 <= j < n ==> final(buf)@[j] == old(self).data_file@[old(
                        self,
                    ).last_data_offset + j])
                &&& (forall|j: int| n <= j < old(buf)@.len() ==> final(buf)@[j] == old(buf)@[j])
                &&& final(buf)@.len() == old(buf)@.len()
                &&& *final(self) == (Topic {
                    last_data_offset: final(self).last_data_offset,
                    ..*old(self)
                })
            }),
    {
        let size = match self.read_data_into(buf, self.last_data_offset) {
            Ok(n) => n,
            Err(e) => {
                return Err(e);
            },
        };
        let result = (self.last_data_offset, size);
        let cap = self.data_file.len();
        proof {
            if size > 0 {
                assert(self.last_data_offset + size <= cap);
            }
        }
        self.last_data_offset = self.last_data_offset + size as u64;
        Ok(result)
    }

    /// One dispatch tick for one feed: the bytes of the chosen file from the
    /// fan-out cursor to its end, the offset they start at, and the
    /// followers they go to — the same byte range for every follower of this
    /// tick.  Moves the cursor to the file's end; a feed type other than
    /// `DataFeed` or `IndexFeed` fails with `BadFileName`.
    pub fn send_followers(&mut self, feed_type: RecordType) -> (r: Result<
        (u64, Vec<u8>, Vec<u32>),
        Er,
    >)
        requires
            old(self).wf(),
        ensures
            final(self).wf(),
            !(feed_type == RecordType::DataFeed || feed_type == RecordType::IndexFeed) ==> r
                == Err::<(u64, Vec<u8>, Vec<u32>), Er>(Er::BadFileName) && *final(self) == *old(
                self,
            ),
            feed_type == RecordType::DataFeed ==> (r matches Ok((off, bytes, fs)) && {
                &&& off == old(self).last_data_offset
                &&& bytes@ == old(self).data_file@.subrange(
                    old(self).last_data_offset as int,
                    old(self).data_file@.len() as int,
                )
                &&& fs@ == old(self).followers@
                &&& final(self).last_data_offset == old(self).data_file@.len()
                &&& *final(self) == (Topic {
                    last_data_offset: final(self).last_data_offset,
                    ..*old(self)
                })
            }),
            feed_type == RecordType::IndexFeed ==> (r matches Ok((off, bytes, fs)) && {
                &&& off == old(self).last_index_offset
                &&& bytes@ == old(self).index_file@.subrange(
                    old(self).last_index_offset as int,
                    old(self).index_file@.len() as int,
                )
                &&& fs@ == old(self).followers@
                &&& final(self).last_index_offset == old(self).index_file@.len()
                &&& *final(self) == (Topic {
                    last_index_offset: final(self).last_index_offset,
                    ..*old(self)
                })
            }),
    {
        let is_data = match feed_type {
            RecordType::DataFeed => true,
            RecordType::IndexFeed => false,
            _ => {
                return Err(Er::BadFileName);
            },
        };
        let fs = clone_u32_vec(&self.followers);
        if is_data {
            let off = self.last_data_offset;
            let bytes = copy_tail(&self.data_file, off);
            self.last_data_offset = self.data_file.len() as u64;
            Ok((off, bytes, fs))
        } else {
            let off = self.last_index_offset;
            let bytes = copy_tail(&self.index_file, off);
            self.last_index_offset = self.index_file.len() as u64;
            Ok((off, bytes, fs))
        }
    }

    /// Subscribes a session to this topic and returns the follow snapshot:
    /// the index-file and data-file fan-out offsets current at call time,
    /// from which the consumer computes absolute positions of what follows.
    pub fn follow(&mut self, client_id: u32) -> (r: Result<(u64, u64), Er>)
        requires
            old(self).wf(),
        ensures
            final(self).wf(),
            r == Ok::<(u64, u64), Er>((old(self).last_index_offset, old(self).last_data_offset)),
            final(self).followers@ == if old(self).followers@.contains(client_id) {
                old(self).followers@
            } else {
                old(self).followers@.push(client_id)
            },
            *final(self) == (Topic { followers: final(self).followers, ..*old(self) }),
    {
        let mut present = false;
        let mut i: usize = 0;
        while i < self.followers.len()
            invariant
                i <= self.followers@.len(),
                present <==> exists|j: int| 0 <= j < i && self.followers@[j] == client_id,
                *self == *old(self),
            decreases self.followers@.len() - i,
        {
            if self.followers[i] == client_id {
                present = true;
            }
            i = i + 1;
        }
        if !present {
            self.followers.push(client_id);
        }
        proof {
            if old(self).followers@.contains(client_id) {
                assert(self.followers@ =~= old(self).followers@);
            }
        }
        Ok((self.last_index_offset, self.last_data_offset))
    }

    /// Points the store at a newly created generation file, so that future
    /// dispatches send from the new file: its name decides whether the data
    /// or the index side switches, the given contents replace that file, and
    /// that side's fan-out cursor returns to the file's start.  A name not
    /// starting with `d` or `i` fails with `BadFileName`.
    pub fn switch_file(&mut self, file_name: &str, contents: Vec<u8>) -> (r: Result<(), Er>)
        requires
            old(self).wf(),
            old(self).records@.len() == 0,
            old(self).pending@.len() == 0,
            file_name@.len() > 0 && file_name@[0] == 'i' ==> contents@.len() % 8 == 0,
        ensures
            final(self).wf(),
            final(self).records@.len() == 0,
            final(self).pending@.len() == 0,
            file_name@.len() == 0 || (file_name@[0] != 'i' && file_name@[0] != 'd') ==> r
                == Err::<(), Er>(Er::BadFileName) && *final(self) == *old(self),
            file_name@.len() > 0 && file_name@[0] == 'i' ==> (r == Ok::<(), Er>(()) && {
                &&& final(self).index_file@ == contents@
                &&& final(self).index_file_name@ == file_name@
                &&& final(self).last_index_offset == 0
                &&& final(self).data_file@ == old(self).data_file@
                &&& final(self).data_file_name@ == old(self).data_file_name@
                &&& final(self).last_data_offset == old(self).last_data_offset
                &&& final(self).followers@ == old(self).followers@
                &&& final(self).config == old(self).config
                &&& final(self).index == old(self).index
            }),
            file_name@.len() > 0 && file_name@[0] == 'd' ==> (r == Ok::<(), Er>(()) && {
                &&& final(self).data_file@ == contents@
                &&& final(self).data_file_name@ == file_name@
                &&& final(self).last_data_offset == 0
                &&& final(self).index_file@ == old(self).index_file@
                &&& final(self).index_file_name@ == old(self).index_file_name@
                &&& final(self).last_index_offset == old(self).last_index_offset
                &&& final(self).followers@ == old(self).followers@
                &&& final(self).config == old(self).config
                &&& final(self).index == old(self).index
            }),
    {
        let n = file_name.unicode_len();
        if n == 0 {
            return Err(Er::BadFileName);
        }
        let c0 = file_name.get_char(0);
        if c0 == 'i' {
            self.index_file_name = String::from_str(file_name);
            self.index_file = contents;
            self.last_index_offset = 0;
            self.full = false;
            let ghost new_base = self.index_file@;
            self.base_index = Ghost(new_base);
            self.index_base = Ghost(self.index);
            self.records = Ghost(Seq::empty());
            self.pending = Ghost(Seq::empty());
            let ghost base_d = self.data_file@;
            self.base_data = Ghost(base_d);
            proof {
                assert(self.data_file@ =~= self.base_data@ + self.records@.flatten_alt()
                    + self.pending@);
                assert(self.index_file@.subrange(0, self.base_index@.len() as int)
                    =~= self.base_index@);
            }
            Ok(())
        } else if c0 == 'd' {
            self.data_file_name = String::from_str(file_name);
            self.data_file = contents;
            self.last_data_offset = 0;
            self.full = false;
            let ghost base_d = self.data_file@;
            self.base_data = Ghost(base_d);
            self.index_base = Ghost(self.index);
            self.records = Ghost(Seq::empty());
            self.pending = Ghost(Seq::empty());
            let ghost base_i = self.index_file@;
            self.base_index = Ghost(base_i);
            proof {
                assert(old(self).index_file@.len() % 8 == 0);
                assert(self.data_file@ =~= self.base_data@ + self.records@.flatten_alt()
                    + self.pending@);
                assert(self.index_file@.subrange(0, self.base_index@.len() as int)
                    =~= self.base_index@);
            }
            Ok(())
        } else {
            Err(Er::BadFileName)
        }
    }

    /// The path of the current data file.
    pub fn get_data_file_name(&self) -> (r: String)
        ensures
            r@ == self.data_file_name@,
    {
        self.data_file_name.clone()
    }

    /// The path of the current index file.
    pub fn get_index_file_name(&self) -> (r: String)
        ensures
            r@ == self.index_file_name@,
    {
        self.index_file_name.clone()
    }

    /// A copy of this topic's configuration.
    pub fn get_config(&self) -> (r: TopicConfig)
        ensures
            r.topic_id == self.config.topic_id,
            r.topic_name@ == self.config.topic_name@,
            r.folder@ == self.config.folder@,
            r.replication == self.config.replication,
            r.file_mask == self.config.file_mask,
    {
        self.config.clone()
    }
}

/// On a store opened on empty files, after any run of commits the index file
/// holds exactly eight bytes per committed record, the data file is exactly
/// the committed payloads in order, and the k-th index entry is the total
/// length of the first k+1 payloads.
pub proof fn lemma_store_accounting(t: Topic)
    requires
        t.wf(),
        t.base_data@.len() == 0,
        t.base_index@.len() == 0,
        t.pending@.len() == 0,
    ensures
        t.index_file@.len() == 8 * t.records@.len(),
        t.data_file@ == t.records@.flatten_alt(),
        forall|k: int|
            0 <= k < t.records@.len() ==> spec_u64_from_le_bytes(
                t.index_file@.subrange(8 * k, 8 * k + 8),
            ) == #[trigger] t.records@.take(k + 1).flatten_alt().len(),
{
    assert(t.base_data@ =~= Seq::<u8>::empty());
    assert(t.data_file@ =~= t.records@.flatten_alt());
}

/// Copies the bytes of `src` from `start` into the front of `buf`.
fn copy_from(src: &Vec<u8>, buf: &mut Vec<u8>, start: u64) -> (r: Result<usize, Er>)
    ensures
        final(buf)@.len() == old(buf)@.len(),
        r matches Ok(n) && n == Topic::read_amount(src@.len() as int, start, old(buf)@.len() as int),
        forall|j: int| 0 <= j < r->Ok_0 ==> final(buf)@[j] == src@[start + j],
        forall|j: int| r->Ok_0 <= j < old(buf)@.len() ==> final(buf)@[j] == old(buf)@[j],
{
    if start >= src.len() as u64 {
        return Ok(0);
    }
    let start = start as usize;
    let avail = src.len() - start;
    let n = if avail <= buf.len() {
        avail
    } else {
        buf.len()
    };
    let mut j: usize = 0;
    while j < n
        invariant
            j <= n,
            start + n <= src@.len(),
            src@.len() <= usize::MAX,
            n <= buf@.len(),
            buf@.len() == old(buf)@.len(),
            forall|k: int| 0 <= k < j ==> buf@[k] == src@[start + k],
            forall|k: int| j <= k < buf@.len() ==> buf@[k] == old(buf)@[k],
        decreases n - j,
    {
        let b = src[start + j];
        buf.set(j, b);
        j = j + 1;
    }
    Ok(n)
}

/// Copies the bytes of `src` from `start` to its end into a fresh vector.
fn copy_tail(src: &Vec<u8>, start: u64) -> (r: Vec<u8>)
    ensures
        start < src@.len() ==> r@ == src@.subrange(start as int, src@.len() as int),
        start >= src@.len() ==> r@ == Seq::<u8>::empty(),
{
    let mut out: Vec<u8> = Vec::new();
    if start >= src.len() as u64 {
        proof {
            assert(out@ =~= Seq::<u8>::empty());
        }
        return out;
    }
    let start = start as usize;
    let mut j: usize = start;
    while j < src.len()
        invariant
            start <= j <= src@.len(),
            out@ == src@.subrange(start as int, j as int),
        decreases src@.len() - j,
    {
        let b = src[j];
        out.push(b);
        proof {
            assert(out@ =~= src@.subrange(start as int, j + 1));
        }
        j = j + 1;
    }
    out
}

/// Copies a vector of session ids.
fn clone_u32_vec(v: &Vec<u32>) -> (r: Vec<u32>)
    ensures
        r@ == v@,
{
    let mut out: Vec<u32> = Vec::new();
    let mut j: usize = 0;
    while j < v.len()
        invariant
            j <= v@.len(),
            out@ == v@.subrange(0, j as int),
        decreases v@.len() - j,
    {
        let b = v[j];
        out.push(b);
        proof {
            assert(out@ =~= v@.subrange(0, j + 1));
        }
        j = j + 1;
    }
    proof {
        assert(v@.subrange(0, v@.len() as int) =~= v@);
    }
    out
}

/// What one topic's directory holds: its entry names and the contents of
/// the newest generation's files (empty when a file is absent).
pub struct TopicDir {
    pub entries: Vec<String>,
    pub data: Vec<u8>,
    pub index: Vec<u8>,
}

/// Whether a directory listing is clean: no malformed entry names.
pub open spec fn dir_entries_ok(entries: Seq<Seq<char>>) -> bool {
    forall|i: int| 0 <= i < entries.len() ==> entry_error(#[trigger] entries[i]) is None
}

/// Whether a listing holds both files of its newest generation.
pub open spec fn pair_present(entries: Seq<Seq<char>>) -> bool {
    &&& (exists|i: int|
        0 <= i < entries.len() && #[trigger] entries[i] == file_name(
            'd',
            largest_generation(entries) as u64,
        ))
    &&& (exists|i: int|
        0 <= i < entries.len() && #[trigger] entries[i] == file_name(
            'i',
            largest_generation(entries) as u64,
        ))
}

/// What a topic freshly opened on a directory looks like.
pub open spec fn opened_topic(
    t: Topic,
    config: TopicConfig,
    entries: Seq<Seq<char>>,
    data: Seq<u8>,
    index: Seq<u8>,
) -> bool {
    &&& t.wf()
    &&& t.generation == largest_generation(entries)
    &&& t.data_file@ == data
    &&& t.index_file@ == index
    &&& t.records@.len() == 0
    &&& t.pending@.len() == 0
    &&& t.index == index.len() / 8
    &&& t.data_file_name@ == file_path(config.folder@, config.topic_name@, 'd', t.generation)
    &&& t.index_file_name@ == file_path(config.folder@, config.topic_name@, 'i', t.generation)
    &&& t.last_data_offset == data.len()
    &&& t.last_index_offset == index.len()
    &&& t.config == config
    &&& t.followers@.len() == 0
    &&& t.current_producer is None
    &&& !t.full
}

/// The topic registry: every topic the broker serves, reachable by id and by
/// name.
pub struct TopicList {
    /// Topic name to topic id.
    pub topic_names: Vec<(String, u32)>,
    /// The topic stores.
    pub topics: Vec<Topic>,
}

impl TopicList {
    /// The ids of the topics, in registry order.
    pub open spec fn ids(self) -> Seq<u32> {
        self.topics@.map_values(|t: Topic| t.config.topic_id)
    }

    /// Registry validity: every store is valid, ids are unique, and the name
    /// table mirrors the stores.
    pub open spec fn wf(self) -> bool {
        &&& (forall|i: int| 0 <= i < self.topics@.len() ==> (#[trigger] self.topics@[i]).wf())
        &&& (forall|i: int, j: int|
            0 <= i < j < self.topics@.len() ==> (#[trigger] self.topics@[i]).config.topic_id != (
            #[trigger] self.topics@[j]).config.topic_id)
        &&& self.topic_names@.len() == self.topics@.len()
        &&& (forall|i: int|
            0 <= i < self.topics@.len() ==> (#[trigger] self.topic_names@[i]).1
                == self.topics@[i].config.topic_id && self.topic_names@[i].0@
                == self.topics@[i].config.topic_name@)
    }

    /// Opens every configured topic on its directory.  Succeeds exactly when
    /// every directory is clean and, in the consumer role, every directory
    /// holds both files of its newest generation.
    #[verifier::loop_isolation(false)]
    pub fn init(is_producer: bool, config: Config, dirs: Vec<TopicDir>) -> (r: Result<
        TopicList,
        Er,
    >)
        requires
            dirs@.len() == config.topics@.len(),
            forall|i: int| 0 <= i < dirs@.len() ==> (#[trigger] dirs@[i]).index@.len() % 8 == 0,
            forall|i: int, j: int|
                0 <= i < j < config.topics@.len() ==> (#[trigger] config.topics@[i]).topic_id != (
                #[trigger] config.topics@[j]).topic_id,
        ensures
            r is Ok <==> (forall|i: int|
                0 <= i < dirs@.len() ==> dir_entries_ok((#[trigger] dirs@[i]).entries.deep_view())
                    && (is_producer || pair_present(dirs@[i].entries.deep_view()))),
            r matches Ok(l) ==> {
                &&& l.wf()
                &&& l.topics@.len() == config.topics@.len()
                &&& (forall|i: int|
                    0 <= i < l.topics@.len() ==> opened_topic(
                        #[trigger] l.topics@[i],
                        config.topics@[i],
                        dirs@[i].entries.deep_view(),
                        dirs@[i].data@,
                        dirs@[i].index@,
                    ))
            },
    {
        let ghost cfgs = config.topics@;
        let ghost dirs0 = dirs@;
        let mut config_rem = config;
        let mut dirs_rem = dirs;
        let total = config_rem.topics.len();
        let mut topics: Vec<Topic> = Vec::new();
        let mut topic_names: Vec<(String, u32)> = Vec::new();
        let ghost n = cfgs.len();
        let mut k: usize = 0;
        while config_rem.topics.len() > 0
            invariant
                k == topics@.len(),
                k <= n,
                n == total,
                topic_names@.len() == k,
                n == cfgs.len(),
                dirs0.len() == n,
                config_rem.topics@ =~= cfgs.skip(k as int),
                dirs_rem@ =~= dirs0.skip(k as int),
                forall|i: int| 0 <= i < n ==> (#[trigger] dirs0[i]).index@.len() % 8 == 0,
                forall|i: int, j: int|
                    0 <= i < j < n ==> (#[trigger] cfgs[i]).topic_id != (
                    #[trigger] cfgs[j]).topic_id,
                forall|i: int|
                    0 <= i < k ==> opened_topic(
                        #[trigger] topics@[i],
                        cfgs[i],
                        dirs0[i].entries.deep_view(),
                        dirs0[i].data@,
                        dirs0[i].index@,
                    ),
                forall|i: int|
                    0 <= i < k ==> (#[trigger] topic_names@[i]).1 == cfgs[i].topic_id
                        && topic_names@[i].0@ == cfgs[i].topic_name@,
                forall|i: int|
                    0 <= i < k ==> dir_entries_ok(
                        (#[trigger] dirs0[i]).entries.deep_view(),
                    ) && (is_producer || pair_present(dirs0[i].entries.deep_view())),
            decreases config_rem.topics@.len(),
        {
            let cfg = config_rem.topics.remove(0);
            let dir = dirs_rem.remove(0);
            proof {
                assert(cfg == cfgs[k as int]);
                assert(dir == dirs0[k as int]);
                assert(config_rem.topics@ =~= cfgs.skip(k + 1));
                assert(dirs_rem@ =~= dirs0.skip(k + 1));
            }
            let name_copy = cfg.topic_name.clone();
            let id = cfg.topic_id;
            match Topic::open(cfg, is_producer, &dir.entries, dir.data, dir.index) {
                Ok(t) => {
                    topics.push(t);
                    topic_names.push((name_copy, id));
                },
                Err(e) => {
                    proof {
                        let dv = dirs0[k as int].entries.deep_view();
                        assert(!(dir_entries_ok(dv) && (is_producer || pair_present(dv))));
                        assert(0 <= k < dirs0.len());
                        assert(!(forall|i: int|
                            0 <= i < dirs0.len() ==> dir_entries_ok(
                                (#[trigger] dirs0[i]).entries.deep_view(),
                            ) && (is_producer || pair_present(dirs0[i].entries.deep_view()))));
                    }
                    return Err(e);
                },
            }
            k = k + 1;
        }
        proof {
            assert(k == n);
        }
        Ok(TopicList { topic_names, topics })
    }

    /// The id registered for a topic name; the name must be registered.
    pub fn get_topic(&self, name: &String) -> (r: u32)
        requires
            self.wf(),
            exists|i: int|
                0 <= i < self.topic_names@.len() && (#[trigger] self.topic_names@[i]).0@ == name@,
        ensures
            exists|i: int|
                0 <= i < self.topic_names@.len() && (#[trigger] self.topic_names@[i]).0@ == name@
                    && self.topic_names@[i].1 == r,
    {
        let mut i: usize = 0;
        while i < self.topic_names.len()
            invariant
                i <= self.topic_names@.len(),
                exists|j: int|
                    0 <= j < self.topic_names@.len() && (#[trigger] self.topic_names@[j]).0@
                        == name@,
                forall|j: int| 0 <= j < i ==> (#[trigger] self.topic_names@[j]).0@ != name@,
            decreases self.topic_names@.len() - i,
        {
            if self.topic_names[i].0.eq(name) {
                return self.topic_names[i].1;
            }
            i = i + 1;
        }
        vstd::pervasive::unreached()
    }

    /// The registry position of the topic with this id.
    pub fn index_for_id(&self, topic_id: u32) -> (r: Option<usize>)
        ensures
            r matches Some(i) ==> i < self.topics@.len() && self.topics@[i as int].config.topic_id
                == topic_id,
            r is None ==> forall|i: int|
                0 <= i < self.topics@.len() ==> (#[trigger] self.topics@[i]).config.topic_id
                    != topic_id,
    {
        let mut i: usize = 0;
        while i < self.topics.len()
            invariant
                i <= self.topics@.len(),
                forall|j: int|
                    0 <= j < i ==> (#[trigger] self.topics@[j]).config.topic_id != topic_id,
            decreases self.topics@.len() - i,
        {
            if self.topics[i].config.topic_id == topic_id {
                return Some(i);
            }
            i = i + 1;
        }
        None
    }

    /// The topic with this id, for reading; `TopicNotFound` when no topic
    /// has it.
    pub fn topic_for_id(&self, topic_id: u32) -> (r: Result<&Topic, Er>)
        ensures
            r matches Ok(t) ==> exists|i: int|
                0 <= i < self.topics@.len() && *t == #[trigger] self.topics@[i]
                    && t.config.topic_id == topic_id,
            r is Err ==> r == Err::<&Topic, Er>(Er::TopicNotFound) && (forall|i: int|
                0 <= i < self.topics@.len() ==> (#[trigger] self.topics@[i]).config.topic_id
                    != topic_id),
    {
        match self.index_for_id(topic_id) {
            Some(i) => Ok(&self.topics[i]),
            None => Err(Er::TopicNotFound),
        }
    }

    /// The topic at a registry position, for writing: the registry afterward
    /// is the old one with that position replaced by whatever the caller
    /// leaves behind.
    pub fn topic_mut(&mut self, i: usize) -> (t: &mut Topic)
        requires
            i < old(self).topics@.len(),
        ensures
            *t == old(self).topics@[i as int],
            final(self).topics@ == old(self).topics@.update(i as int, *final(t)),
            final(self).topic_names@ == old(self).topic_names@,
    {
        vstd::std_specs::vec::vec_index_mut(&mut self.topics, i)
    }
}

/// Whether a listing holds an entry with exactly this name.
fn contains_name(entries: &Vec<String>, name: &String) -> (r: bool)
    ensures
        r <==> exists|i: int|
            0 <= i < entries.deep_view().len() && (#[trigger] entries.deep_view()[i]) == name@,
{
    let ghost dv = entries.deep_view();
    let mut i: usize = 0;
    while i < entries.len()
        invariant
            i <= entries@.len(),
            dv == entries.deep_view(),
            dv.len() == entries@.len(),
            forall|j: int| 0 <= j < i ==> (#[trigger] dv[j]) != name@,
        decreases entries@.len() - i,
    {
        proof {
            assert(dv[i as int] == entries@[i as int]@);
        }
        if entries[i].eq(name) {
            return true;
        }
        i = i + 1;
    }
    false
}

} // verus!
