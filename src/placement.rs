use vstd::prelude::*;

verus! {

/// A file in the license directory: the name it was copied under, and its
/// backup number (0 for the bare name, `k` for `name.~k~`).
pub struct LicenseEntry {
    pub name: String,
    pub backup: u64,
}

impl View for LicenseEntry {
    type V = (Seq<char>, nat);

    open spec fn view(&self) -> (Seq<char>, nat) {
        (self.name@, self.backup as nat)
    }
}

/// The character of a decimal digit.
pub open spec fn digit_char(d: nat) -> char {
    if d == 0 { '0' }
    else if d == 1 { '1' }
    else if d == 2 { '2' }
    else if d == 3 { '3' }
    else if d == 4 { '4' }
    else if d == 5 { '5' }
    else if d == 6 { '6' }
    else if d == 7 { '7' }
    else if d == 8 { '8' }
    else { '9' }
}

/// The decimal text of a number, without leading zeros.
pub open spec fn decimal(n: nat) -> Seq<char>
    decreases n,
{
    if n < 10 {
        seq![digit_char(n)]
    } else {
        decimal(n / 10).push(digit_char(n % 10))
    }
}

/// The name a file is stored under: the bare name, or `name.~k~` for backup `k`.
pub open spec fn stored_name(e: (Seq<char>, nat)) -> Seq<char> {
    if e.1 == 0 {
        e.0
    } else {
        e.0 + seq!['.', '~'] + decimal(e.1) + seq!['~']
    }
}

/// The text of one decimal digit.
fn digit_text(d: u64) -> (r: &'static str)
    requires
        d < 10,
    ensures
        r@ == seq![digit_char(d as nat)],
{
    proof {
        reveal_strlit("0");
        reveal_strlit("1");
        reveal_strlit("2");
        reveal_strlit("3");
        reveal_strlit("4");
        reveal_strlit("5");
        reveal_strlit("6");
        reveal_strlit("7");
        reveal_strlit("8");
        reveal_strlit("9");
    }
    if d == 0 { "0" }
    else if d == 1 { "1" }
    else if d == 2 { "2" }
    else if d == 3 { "3" }
    else if d == 4 { "4" }
    else if d == 5 { "5" }
    else if d == 6 { "6" }
    else if d == 7 { "7" }
    else if d == 8 { "8" }
    else { "9" }
}

/// The decimal text of a number.
pub fn decimal_text(n: u64) -> (r: String)
    ensures
        r@ == decimal(n as nat),
    decreases n,
{
    if n < 10 {
        String::from_str(digit_text(n))
    } else {
        let mut r = decimal_text(n / 10);
        r.append(digit_text(n % 10));
        r
    }
}

impl LicenseEntry {
    /// The name the file is stored under: `COPYRIGHT`, or `COPYRIGHT.~2~` for
    /// its second backup.
    pub fn file_name(&self) -> (r: String)
        ensures
            r@ == stored_name(self@),
    {
        if self.backup == 0 {
            return self.name.clone();
        }
        proof {
            reveal_strlit(".~");
            reveal_strlit("~");
        }
        let mut r = self.name.clone();
        r.append(".~");
        let digits = decimal_text(self.backup);
        r.append(digits.as_str());
        r.append("~");
        r
    }
}

/// The contents of a license directory, entry by entry.
pub open spec fn listing_view(listing: Seq<LicenseEntry>) -> Seq<(Seq<char>, nat)> {
    listing.map_values(|e: LicenseEntry| e@)
}

/// The highest backup number held by a file of the given name (0 if none).
pub open spec fn max_backup(listing: Seq<(Seq<char>, nat)>, name: Seq<char>) -> nat
    decreases listing.len(),
{
    if listing.len() == 0 {
        0
    } else {
        let rest = max_backup(listing.drop_last(), name);
        let e = listing.last();
        if e.0 == name && e.1 > rest {
            e.1
        } else {
            rest
        }
    }
}

/// No two files of a directory share name and backup number.
pub open spec fn all_distinct(listing: Seq<(Seq<char>, nat)>) -> bool {
    forall|i: int, j: int|
        0 <= i < listing.len() && 0 <= j < listing.len() && i != j ==> listing[i] != listing[j]
}

/// The file `e` once the bare name `incoming` has been moved to backup `k`.
pub open spec fn spec_rename(e: (Seq<char>, nat), incoming: Seq<char>, k: nat) -> (Seq<char>, nat) {
    if e == (incoming, 0nat) {
        (incoming, k)
    } else {
        e
    }
}

/// The directory with the file holding the bare name `incoming`, if any, moved
/// to the next free backup number of that name.
pub open spec fn spec_backed_up(listing: Seq<(Seq<char>, nat)>, incoming: Seq<char>) -> Seq<
    (Seq<char>, nat),
> {
    let k = max_backup(listing, incoming) + 1;
    Seq::new(listing.len(), |i: int| spec_rename(listing[i], incoming, k))
}

/// The directory after copying a file named `incoming` into it with numbered
/// backups: a file already holding the bare name is kept under the next free
/// backup number for that name, and the new file takes the bare name.
pub open spec fn spec_place(listing: Seq<(Seq<char>, nat)>, incoming: Seq<char>) -> Seq<
    (Seq<char>, nat),
> {
    spec_backed_up(listing, incoming).push((incoming, 0nat))
}

/// The directory after copying each name of `names` into it, in order.
pub open spec fn spec_place_all(listing: Seq<(Seq<char>, nat)>, names: Seq<Seq<char>>) -> Seq<
    (Seq<char>, nat),
>
    decreases names.len(),
{
    if names.len() == 0 {
        listing
    } else {
        spec_place_all(spec_place(listing, names[0]), names.drop_first())
    }
}

/// What copying a file into the directory does to the file already there.
pub enum PlacementAction {
    /// No file holds the name: the new file takes it.
    PlaceBare,
    /// The file holding the name is renamed to the given backup number first.
    RenameExisting(u64),
}

/// The highest backup number held by a file of the given name, computed.
fn highest_backup(listing: &Vec<LicenseEntry>, name: &str) -> (r: u64)
    ensures
        r as nat == max_backup(listing_view(listing@), name@),
{
    let mut best: u64 = 0;
    let mut i: usize = 0;
    while i < listing.len()
        invariant
            i <= listing@.len(),
            best as nat == max_backup(listing_view(listing@.subrange(0, i as int)), name@),
        decreases listing@.len() - i,
    {
        let ghost before = listing_view(listing@.subrange(0, i as int));
        let ghost after = listing_view(listing@.subrange(0, i + 1 as int));
        assert(after.drop_last() =~= before);
        if listing[i].name == String::from_str(name) && listing[i].backup > best {
            best = listing[i].backup;
        }
        i = i + 1;
    }
    assert(listing@.subrange(0, listing@.len() as int) =~= listing@);
    best
}

/// Decides what copying a file named `incoming` into the directory does: if a
/// file holds the bare name, it is kept under one more than the highest backup
/// number of that name; otherwise the new file simply takes the name.
pub fn placement_action(listing: &Vec<LicenseEntry>, incoming: &str) -> (r: PlacementAction)
    requires
        max_backup(listing_view(listing@), incoming@) < u64::MAX,
    ensures
        listing_view(listing@).contains((incoming@, 0nat)) ==> r == PlacementAction::RenameExisting(
            (max_backup(listing_view(listing@), incoming@) + 1) as u64,
        ),
        !listing_view(listing@).contains((incoming@, 0nat)) ==> r == PlacementAction::PlaceBare,
{
    let mut i: usize = 0;
    while i < listing.len()
        invariant
            i <= listing@.len(),
            max_backup(listing_view(listing@), incoming@) < u64::MAX,
            forall|j: int| 0 <= j < i ==> listing_view(listing@)[j] != (incoming@, 0nat),
        decreases listing@.len() - i,
    {
        if listing[i].name == String::from_str(incoming) && listing[i].backup == 0 {
            assert(listing_view(listing@)[i as int] == (incoming@, 0nat));
            let k = highest_backup(listing, incoming);
            return PlacementAction::RenameExisting(k + 1);
        }
        i = i + 1;
    }
    PlacementAction::PlaceBare
}

/// Copies a file named `incoming` into the directory with numbered backups:
/// a file holding the bare name is kept under the next backup number of that
/// name, and the new file takes the bare name. Nothing is overwritten.
pub fn place_license(listing: &mut Vec<LicenseEntry>, incoming: &str)
    requires
        max_backup(listing_view(old(listing)@), incoming@) < u64::MAX,
    ensures
        listing_view(final(listing)@) == spec_place(listing_view(old(listing)@), incoming@),
{
    let ghost start = listing_view(listing@);
    let ghost k: nat = max_backup(start, incoming@) + 1;
    let ghost target = spec_backed_up(start, incoming@);
    let action = placement_action(listing, incoming);
    if let PlacementAction::RenameExisting(next) = action {
        let mut i: usize = 0;
        while i < listing.len()
            invariant
                listing@.len() == start.len(),
                i <= start.len(),
                next as nat == k,
                k == max_backup(start, incoming@) + 1,
                target == spec_backed_up(start, incoming@),
                target.len() == start.len(),
                forall|j: int| 0 <= j < i ==> #[trigger] listing_view(listing@)[j] == target[j],
                forall|j: int| i <= j < start.len() ==> #[trigger] listing_view(listing@)[j] == start[j],
            decreases start.len() - i,
        {
            let ghost before = listing_view(listing@);
            assert(listing_view(listing@)[i as int] == start[i as int]);
            assert(target[i as int] == spec_rename(start[i as int], incoming@, k));
            if listing[i].name == String::from_str(incoming) && listing[i].backup == 0 {
                let renamed = LicenseEntry { name: String::from_str(incoming), backup: next };
                listing.set(i, renamed);
                assert(listing_view(listing@) =~= before.update(i as int, (incoming@, k)));
            } else {
                assert(before[i as int] != (incoming@, 0nat));
            }
            assert(listing_view(listing@)[i as int] == target[i as int]);
            i = i + 1;
        }
        assert(listing_view(listing@) =~= target);
    } else {
        assert(!start.contains((incoming@, 0nat)));
        assert forall|j: int| 0 <= j < start.len() implies target[j] == start[j] by {
            if start[j] == (incoming@, 0nat) {
                assert(start.contains((incoming@, 0nat)));
            }
        }
        assert(target =~= start);
    }
    listing.push(LicenseEntry { name: String::from_str(incoming), backup: 0 });
    assert(listing_view(listing@) =~= target.push((incoming@, 0nat)));
}

/// Every file of a given name holds a backup number no higher than `max_backup`.
pub proof fn lemma_max_backup_bounds(listing: Seq<(Seq<char>, nat)>, name: Seq<char>)
    ensures
        forall|i: int|
            0 <= i < listing.len() && (#[trigger] listing[i]).0 == name ==> listing[i].1
                <= max_backup(listing, name),
    decreases listing.len(),
{
    if listing.len() > 0 {
        lemma_max_backup_bounds(listing.drop_last(), name);
        assert forall|i: int|
            0 <= i < listing.len() && (#[trigger] listing[i]).0 == name implies listing[i].1
                <= max_backup(listing, name) by {
            if i < listing.len() - 1 {
                assert(listing.drop_last()[i] == listing[i]);
            }
        }
    }
}

/// Copying one file in never overwrites: the directory gains exactly one
/// file, the new file holds the bare name, every earlier file is still there
/// (the one that held the bare name now under a backup number), and files
/// that were pairwise distinct stay so.
pub proof fn lemma_place_keeps_files(listing: Seq<(Seq<char>, nat)>, incoming: Seq<char>)
    ensures
        spec_place(listing, incoming).len() == listing.len() + 1,
        spec_place(listing, incoming).last() == (incoming, 0nat),
        forall|i: int|
            0 <= i < listing.len() ==> (#[trigger] spec_place(listing, incoming)[i] == listing[i]
                || (listing[i] == (incoming, 0nat) && spec_place(listing, incoming)[i] == (
                incoming,
                max_backup(listing, incoming) + 1,
            ))),
        all_distinct(listing) ==> all_distinct(spec_place(listing, incoming)),
{
    let k = max_backup(listing, incoming) + 1;
    let b = spec_backed_up(listing, incoming);
    let r = spec_place(listing, incoming);
    lemma_max_backup_bounds(listing, incoming);
    assert forall|i: int| 0 <= i < listing.len() implies r[i] == b[i] by {}
    if all_distinct(listing) {
        assert forall|i: int, j: int|
            0 <= i < r.len() && 0 <= j < r.len() && i != j implies r[i] != r[j] by {
            if i < listing.len() && j < listing.len() {
                if listing[i] == (incoming, 0nat) {
                    assert(listing[j] != listing[i]);
                    if listing[j].0 == incoming {
                        assert(listing[j].1 <= max_backup(listing, incoming));
                    }
                } else if listing[j] == (incoming, 0nat) {
                    if listing[i].0 == incoming {
                        assert(listing[i].1 <= max_backup(listing, incoming));
                    }
                }
            }
        }
    }
}

/// Copying any number of files in, one after the other, never overwrites: from
/// a directory of distinct files, each copy adds one file and all stay distinct.
/// In particular N files of the same name end up under N distinct names.
pub proof fn lemma_place_all_keeps_files(listing: Seq<(Seq<char>, nat)>, names: Seq<Seq<char>>)
    requires
        all_distinct(listing),
    ensures
        spec_place_all(listing, names).len() == listing.len() + names.len(),
        all_distinct(spec_place_all(listing, names)),
    decreases names.len(),
{
    if names.len() > 0 {
        lemma_place_keeps_files(listing, names[0]);
        lemma_place_all_keeps_files(spec_place(listing, names[0]), names.drop_first());
    }
}

/// A decimal text has at least one digit, and two or more from ten on.
proof fn lemma_decimal_len(n: nat)
    ensures
        decimal(n).len() >= 1,
        n >= 10 ==> decimal(n).len() >= 2,
    decreases n,
{
    if n >= 10 {
        lemma_decimal_len(n / 10);
    }
}

/// Different numbers have different decimal texts.
proof fn lemma_decimal_injective(a: nat, b: nat)
    requires
        decimal(a) == decimal(b),
    ensures
        a == b,
    decreases a,
{
    lemma_decimal_len(a);
    lemma_decimal_len(b);
    if a >= 10 && b >= 10 {
        let da = decimal(a);
        let db = decimal(b);
        assert(da.last() == digit_char(a % 10));
        assert(db.last() == digit_char(b % 10));
        assert(da.drop_last() =~= decimal(a / 10));
        assert(db.drop_last() =~= decimal(b / 10));
        lemma_decimal_injective(a / 10, b / 10);
    } else if a < 10 && b < 10 {
        assert(decimal(a)[0] == digit_char(a));
        assert(decimal(b)[0] == digit_char(b));
    }
}

/// Two files of the same name with different backup numbers are stored under
/// different names: numbered backups never collide.
pub proof fn lemma_stored_names_differ(a: (Seq<char>, nat), b: (Seq<char>, nat))
    requires
        a.0 == b.0,
        a.1 != b.1,
    ensures
        stored_name(a) != stored_name(b),
{
    let base = a.0;
    let l = base.len() + 2;
    if a.1 != 0 && b.1 != 0 && stored_name(a) == stored_name(b) {
        lemma_decimal_len(a.1);
        lemma_decimal_len(b.1);
        let sa = stored_name(a);
        assert(sa.len() == l + decimal(a.1).len() + 1);
        assert(decimal(a.1).len() == decimal(b.1).len());
        assert(sa.subrange(l as int, sa.len() - 1) =~= decimal(a.1));
        assert(stored_name(b).subrange(l as int, sa.len() - 1) =~= decimal(b.1));
        lemma_decimal_injective(a.1, b.1);
    } else if a.1 == 0 && b.1 != 0 {
        assert(stored_name(b).len() > base.len());
    } else if a.1 != 0 && b.1 == 0 {
        assert(stored_name(a).len() > base.len());
    }
}

} // verus!
