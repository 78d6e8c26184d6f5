//! Assets of a theme and the addresses under which the page finds them.
use vstd::prelude::*;

use crate::decimal::{decimal, decimal_chars, decimal_is_injective, is_digit, lemma_decimal};
use crate::error::CodexError;
use crate::token::{encode_hex, hex_text, random_bytes};
use crate::text::{chars_of, push_text, same_text, text_of};

verus! {

/// The number of random bytes that a token is made of.
pub const TOKEN_SIZE: usize = 32;

/// An asset of a theme.
#[derive(Debug)]
pub struct ThemeRuntimeAsset {
    pub path: String,
    pub mime: String,
    pub source: Vec<u8>,
}

/// Whether a text comes before another in the order of the code points, which is the order of the
/// bytes in UTF-8 too.
pub open spec fn text_below(left: Seq<char>, right: Seq<char>) -> bool
    decreases left.len(),
{
    if right.len() == 0 {
        false
    } else if left.len() == 0 {
        true
    } else if left[0] == right[0] {
        text_below(left.drop_first(), right.drop_first())
    } else {
        left[0] < right[0]
    }
}

proof fn lemma_below_is_asymmetric(left: Seq<char>, right: Seq<char>)
    ensures
        text_below(left, right) ==> !text_below(right, left),
    decreases left.len(),
{
    if left.len() > 0 && right.len() > 0 && left[0] == right[0] {
        lemma_below_is_asymmetric(left.drop_first(), right.drop_first());
    }
}

proof fn lemma_not_below_is_transitive(first: Seq<char>, second: Seq<char>, third: Seq<char>)
    requires
        !text_below(second, first),
        !text_below(third, second),
    ensures
        !text_below(third, first),
    decreases first.len(),
{
    if first.len() > 0 && second.len() > 0 && third.len() > 0 && third[0] == first[0] && second[0]
        == first[0] {
        lemma_not_below_is_transitive(first.drop_first(), second.drop_first(), third.drop_first());
    }
}

fn comes_before(left: &str, right: &str) -> (result: bool)
    ensures
        result == text_below(left@, right@),
{
    let lower = chars_of(left);
    let upper = chars_of(right);
    let mut i: usize = 0;
    assert(lower@.skip(0) =~= lower@);
    assert(upper@.skip(0) =~= upper@);
    while i < lower.len() && i < upper.len() && lower[i] == upper[i]
        invariant
            i <= lower@.len(),
            i <= upper@.len(),
            text_below(lower@, upper@) == text_below(lower@.skip(i as int), upper@.skip(i as int)),
        decreases lower@.len() - i,
    {
        assert(lower@.skip(i as int).drop_first() =~= lower@.skip(i + 1));
        assert(upper@.skip(i as int).drop_first() =~= upper@.skip(i + 1));
        i += 1;
    }
    if i >= upper.len() {
        false
    } else if i >= lower.len() {
        true
    } else {
        lower[i] < upper[i]
    }
}

/// The assets with a path.
pub open spec fn with_path(path: Seq<char>) -> spec_fn(ThemeRuntimeAsset) -> bool {
    |asset: ThemeRuntimeAsset| asset.path@ == path
}

/// Whether assets stand in the order of their paths.
pub open spec fn in_path_order(assets: Seq<ThemeRuntimeAsset>) -> bool {
    forall|i: int, j: int|
        0 <= i < j < assets.len() ==> !text_below(
            (#[trigger] assets[j]).path@,
            (#[trigger] assets[i]).path@,
        )
}

/// Whether one list of assets is another one in the order of the paths, where assets with the same
/// path keep their order.
pub open spec fn sorted_from(
    sorted: Seq<ThemeRuntimeAsset>,
    assets: Seq<ThemeRuntimeAsset>,
) -> bool {
    &&& sorted.len() == assets.len()
    &&& in_path_order(sorted)
    &&& forall|path: Seq<char>|
        sorted.filter(#[trigger] with_path(path)) == assets.filter(with_path(path))
}

proof fn lemma_filter_none(assets: Seq<ThemeRuntimeAsset>, path: Seq<char>)
    requires
        forall|i: int| 0 <= i < assets.len() ==> (#[trigger] assets[i]).path@ != path,
    ensures
        assets.filter(with_path(path)) == Seq::<ThemeRuntimeAsset>::empty(),
    decreases assets.len(),
{
    reveal(Seq::filter);
    if assets.len() > 0 {
        lemma_filter_none(assets.drop_last(), path);
    }
}

proof fn lemma_filter_one(asset: ThemeRuntimeAsset, path: Seq<char>)
    ensures
        seq![asset].filter(with_path(path)) == if asset.path@ == path {
            seq![asset]
        } else {
            Seq::empty()
        },
{
    reveal(Seq::filter);
    assert(seq![asset].drop_last() =~= Seq::<ThemeRuntimeAsset>::empty());
    assert(Seq::<ThemeRuntimeAsset>::empty().filter(with_path(path)) =~= Seq::empty());
}

/// To put an asset before all that do not come before it keeps the order.
proof fn lemma_insertion(
    sorted: Seq<ThemeRuntimeAsset>,
    assets: Seq<ThemeRuntimeAsset>,
    asset: ThemeRuntimeAsset,
    at: int,
)
    requires
        sorted_from(sorted, assets),
        0 <= at <= sorted.len(),
        forall|i: int|
            0 <= i < at ==> text_below((#[trigger] sorted[i]).path@, asset.path@),
        at < sorted.len() ==> !text_below(sorted[at].path@, asset.path@),
    ensures
        sorted_from(sorted.insert(at, asset), seq![asset] + assets),
{
    let inserted = sorted.insert(at, asset);
    let front = sorted.take(at);
    let back = sorted.skip(at);
    assert(inserted =~= front + seq![asset] + back);
    assert(sorted =~= front + back);
    assert forall|i: int, j: int| 0 <= i < j < inserted.len() implies !text_below(
        (#[trigger] inserted[j]).path@,
        (#[trigger] inserted[i]).path@,
    ) by {
        if j == at {
            lemma_below_is_asymmetric(sorted[i].path@, asset.path@);
        } else if i == at {
            if j - 1 > at {
                assert(!text_below(sorted[j - 1].path@, sorted[at].path@));
                lemma_not_below_is_transitive(asset.path@, sorted[at].path@, sorted[j - 1].path@);
            }
        } else {
            let left = if i < at { i } else { i - 1 };
            let right = if j < at { j } else { j - 1 };
            assert(inserted[i] == sorted[left]);
            assert(inserted[j] == sorted[right]);
        }
    }
    assert forall|path: Seq<char>|
        inserted.filter(#[trigger] with_path(path)) == (seq![asset] + assets).filter(
            with_path(path),
        ) by {
        let keeps = with_path(path);
        Seq::filter_distributes_over_add(front + seq![asset], back, keeps);
        Seq::filter_distributes_over_add(front, seq![asset], keeps);
        Seq::filter_distributes_over_add(front, back, keeps);
        Seq::filter_distributes_over_add(seq![asset], assets, keeps);
        lemma_filter_one(asset, path);
        assert(sorted.filter(keeps) == assets.filter(keeps));
        if asset.path@ == path {
            assert forall|i: int| 0 <= i < front.len() implies (#[trigger] front[i]).path@
                != path by {
                lemma_below_is_asymmetric(sorted[i].path@, asset.path@);
            }
            lemma_filter_none(front, path);
        }
        assert(inserted.filter(keeps) =~= (seq![asset] + assets).filter(keeps));
    }
}

/// Puts assets in the order of their paths; assets with the same path keep their order.
pub fn sort_assets(assets: Vec<ThemeRuntimeAsset>) -> (result: Vec<ThemeRuntimeAsset>)
    ensures
        sorted_from(result@, assets@),
{
    let ghost all = assets@;
    let mut rest = assets;
    let mut sorted: Vec<ThemeRuntimeAsset> = Vec::new();
    assert(all.skip(all.len() as int) =~= sorted@);
    while rest.len() > 0
        invariant
            rest@.len() <= all.len(),
            rest@ == all.take(rest@.len() as int),
            sorted_from(sorted@, all.skip(rest@.len() as int)),
        decreases rest@.len(),
    {
        let ghost size = rest@.len() as int;
        let asset = rest.pop().unwrap();
        assert(asset == all[size - 1]);
        assert(rest@ =~= all.take(size - 1));
        let mut at: usize = 0;
        while at < sorted.len() && comes_before(sorted[at].path.as_str(), asset.path.as_str())
            invariant
                at <= sorted@.len(),
                forall|i: int|
                    0 <= i < at ==> text_below((#[trigger] sorted@[i]).path@, asset.path@),
            decreases sorted@.len() - at,
        {
            at += 1;
        }
        proof {
            lemma_insertion(sorted@, all.skip(size), asset, at as int);
            assert(seq![asset] + all.skip(size) =~= all.skip(size - 1));
        }
        sorted.insert(at, asset);
    }
    assert(all.skip(0) =~= all);
    sorted
}

/// The assets of one session, in the order of their paths, with the address and the secret token
/// under which they are served.
#[derive(Debug)]
pub struct AssetTable {
    pub address: String,
    pub token: String,
    pub assets: Vec<ThemeRuntimeAsset>,
}

/// The path under which the asset with an index is served.
pub open spec fn asset_route(token: Seq<char>, index: nat) -> Seq<char> {
    seq!['/'] + token + seq!['/'] + decimal(index)
}

/// The path under which the assets of a session are revoked.
pub open spec fn revoke_route(token: Seq<char>) -> Seq<char> {
    seq!['/'] + token + "/revoke"@
}

/// The URL of a path at an address.
pub open spec fn url_of(address: Seq<char>, path: Seq<char>) -> Seq<char> {
    "http://"@ + address + path
}

impl AssetTable {
    /// Whether a table serves some assets at an address under a token made of some bytes.
    pub open spec fn serves(
        self,
        address: Seq<char>,
        token_bytes: Seq<u8>,
        assets: Seq<ThemeRuntimeAsset>,
    ) -> bool {
        &&& self.address@ == address
        &&& self.token@ == hex_text(token_bytes)
        &&& sorted_from(self.assets@, assets)
    }

    /// The index of the asset that is served under a path.
    pub open spec fn index_of(self, path: Seq<char>) -> Option<int> {
        if exists|index: int|
            0 <= index < self.assets@.len() && path == #[trigger] asset_route(
                self.token@,
                index as nat,
            ) {
            Some(
                choose|index: int|
                    0 <= index < self.assets@.len() && path == #[trigger] asset_route(
                        self.token@,
                        index as nat,
                    ),
            )
        } else {
            None
        }
    }

    /// A table of assets under a token made of given bytes.
    pub fn with_token(
        address: &str,
        token_bytes: &[u8],
        assets: Vec<ThemeRuntimeAsset>,
    ) -> (result: AssetTable)
        ensures
            result.serves(address@, token_bytes@, assets@),
    {
        AssetTable {
            address: address.to_owned(),
            token: encode_hex(token_bytes),
            assets: sort_assets(assets),
        }
    }

    /// A table of assets under a token made of the bytes that a random source has given. Where the
    /// source has failed, so does this, with the message of the source.
    pub fn with_random_token(
        address: &str,
        random: Result<Vec<u8>, String>,
        assets: Vec<ThemeRuntimeAsset>,
    ) -> (result: Result<AssetTable, CodexError>)
        ensures
            match (result, random) {
                (Ok(table), Ok(token_bytes)) => table.serves(address@, token_bytes@, assets@),
                (Err(error), Err(message)) => error@ == message@,
                _ => false,
            },
    {
        match random {
            Ok(token_bytes) => Ok(
                AssetTable::with_token(address, token_bytes.as_slice(), assets),
            ),
            Err(message) => Err(CodexError::new(message.as_str())),
        }
    }

    /// A table of assets under a token made of random bytes. It fails only where the operating
    /// system has no random source; whether it has one is left open.
    pub fn new(address: &str, assets: Vec<ThemeRuntimeAsset>) -> (result: Result<
        AssetTable,
        CodexError,
    >)
        ensures
            result matches Ok(table) ==> exists|token_bytes: Seq<u8>|
                token_bytes.len() == TOKEN_SIZE && table.serves(address@, token_bytes, assets@),
    {
        let random = random_bytes(TOKEN_SIZE);
        let ghost given = random;
        let result = AssetTable::with_random_token(address, random, assets);
        assert(result is Ok ==> result->Ok_0.serves(address@, given->Ok_0@, assets@));
        result
    }

    /// The path under which the asset with an index is served.
    pub fn route(&self, index: usize) -> (result: String)
        ensures
            result@ == asset_route(self.token@, index as nat),
    {
        let mut path: Vec<char> = vec!['/'];
        push_text(&mut path, self.token.as_str());
        path.push('/');
        let mut digits = decimal_chars(index as u128);
        path.append(&mut digits);
        assert(path@ =~= asset_route(self.token@, index as nat));
        text_of(path.as_slice())
    }

    /// The path under which the assets are revoked.
    pub fn revoke_path(&self) -> (result: String)
        ensures
            result@ == revoke_route(self.token@),
    {
        let mut path: Vec<char> = vec!['/'];
        push_text(&mut path, self.token.as_str());
        push_text(&mut path, "/revoke");
        assert(path@ =~= revoke_route(self.token@));
        text_of(path.as_slice())
    }

    fn url(&self, path: &str) -> (result: String)
        ensures
            result@ == url_of(self.address@, path@),
    {
        let mut url = chars_of("http://");
        push_text(&mut url, self.address.as_str());
        push_text(&mut url, path);
        text_of(url.as_slice())
    }

    /// The URL under which the assets are revoked.
    pub fn revoke_url(&self) -> (result: String)
        ensures
            result@ == url_of(self.address@, revoke_route(self.token@)),
    {
        self.url(self.revoke_path().as_str())
    }

    /// The path and the URL of each asset. Where two assets have the same path, the page is to use
    /// the later URL.
    pub fn asset_urls(&self) -> (result: Vec<(String, String)>)
        ensures
            result@.len() == self.assets@.len(),
            forall|i: int|
                0 <= i < result@.len() ==> (#[trigger] result@[i]).0@ == self.assets@[i].path@
                    && result@[i].1@ == url_of(
                    self.address@,
                    asset_route(self.token@, i as nat),
                ),
    {
        let mut urls: Vec<(String, String)> = Vec::new();
        let mut i: usize = 0;
        while i < self.assets.len()
            invariant
                i <= self.assets@.len(),
                urls@.len() == i,
                forall|j: int|
                    0 <= j < i ==> (#[trigger] urls@[j]).0@ == self.assets@[j].path@
                        && urls@[j].1@ == url_of(
                        self.address@,
                        asset_route(self.token@, j as nat),
                    ),
            decreases self.assets@.len() - i,
        {
            urls.push((self.assets[i].path.clone(), self.url(self.route(i).as_str())));
            i += 1;
        }
        urls
    }

    /// The index of the asset that is served under a path.
    pub fn find_route(&self, path: &str) -> (result: Option<usize>)
        ensures
            match result {
                Some(index) => self.index_of(path@) == Some(index as int),
                None => self.index_of(path@) is None,
            },
    {
        let mut i: usize = 0;
        while i < self.assets.len()
            invariant
                i <= self.assets@.len(),
                forall|j: int|
                    0 <= j < i ==> path@ != #[trigger] asset_route(self.token@, j as nat),
            decreases self.assets@.len() - i,
        {
            if same_text(self.route(i).as_str(), path) {
                proof {
                    lemma_index_of(*self, i as int);
                }
                return Some(i);
            }
            i += 1;
        }
        None
    }
}

/// An asset is found under its path.
pub proof fn lemma_index_of(table: AssetTable, index: int)
    requires
        0 <= index < table.assets@.len(),
    ensures
        table.index_of(asset_route(table.token@, index as nat)) == Some(index),
{
    let path = asset_route(table.token@, index as nat);
    let found = choose|index: int|
        0 <= index < table.assets@.len() && path == #[trigger] asset_route(
            table.token@,
            index as nat,
        );
    asset_routes_are_distinct(table.token@, found as nat, index as nat);
}

/// Two assets have different paths, and none has the path that revokes the assets.
pub proof fn asset_routes_are_distinct(token: Seq<char>, left: nat, right: nat)
    ensures
        asset_route(token, left) == asset_route(token, right) ==> left == right,
        asset_route(token, left) != revoke_route(token),
{
    let size = token.len() as int + 2;
    assert(asset_route(token, left).skip(size) =~= decimal(left));
    assert(asset_route(token, right).skip(size) =~= decimal(right));
    if asset_route(token, left) == asset_route(token, right) {
        decimal_is_injective(left, right);
    }
    reveal_strlit("/revoke");
    lemma_decimal(left);
    assert(revoke_route(token)[size] == 'r');
    assert(asset_route(token, left)[size] == decimal(left)[0]);
    assert(is_digit(decimal(left)[0]));
}

/// Each asset that a table was made of is served under one of its paths.
pub proof fn every_asset_is_served(
    table: AssetTable,
    address: Seq<char>,
    token_bytes: Seq<u8>,
    assets: Seq<ThemeRuntimeAsset>,
    asset: ThemeRuntimeAsset,
)
    requires
        table.serves(address, token_bytes, assets),
        assets.contains(asset),
    ensures
        exists|index: int|
            0 <= index < table.assets@.len() && table.assets@[index] == asset && table.index_of(
                #[trigger] asset_route(table.token@, index as nat),
            ) == Some(index),
{
    broadcast use vstd::seq_lib::group_filter_ensures;

    let keeps = with_path(asset.path@);
    let at = choose|at: int| 0 <= at < assets.len() && assets[at] == asset;
    assert(assets.filter(keeps).contains(assets[at]));
    assert(table.assets@.filter(keeps) == assets.filter(keeps));
    lemma_filter_is_part(table.assets@, keeps, asset);
    let index = choose|index: int|
        0 <= index < table.assets@.len() && table.assets@[index] == asset;
    lemma_index_of(table, index);
}

proof fn lemma_filter_is_part(
    assets: Seq<ThemeRuntimeAsset>,
    keeps: spec_fn(ThemeRuntimeAsset) -> bool,
    asset: ThemeRuntimeAsset,
)
    requires
        assets.filter(keeps).contains(asset),
    ensures
        assets.contains(asset),
    decreases assets.len(),
{
    reveal(Seq::filter);
    if assets.len() > 0 {
        let front = assets.drop_last();
        if front.filter(keeps).contains(asset) {
            lemma_filter_is_part(front, keeps, asset);
            let i = choose|i: int| 0 <= i < front.len() && front[i] == asset;
            assert(assets[i] == asset);
        } else {
            let i = choose|i: int|
                0 <= i < assets.filter(keeps).len() && assets.filter(keeps)[i] == asset;
            if i < front.filter(keeps).len() {
                assert(front.filter(keeps)[i] == asset);
            }
            assert(assets[assets.len() - 1] == asset);
        }
    }
}

/// Behind what two texts have in common, the one that ends comes before the one that goes on, and
/// else the one with the smaller character does.
pub proof fn texts_are_ordered_by_their_first_difference(
    common: Seq<char>,
    left: Seq<char>,
    right: Seq<char>,
)
    requires
        left.len() > 0 && right.len() > 0 ==> left[0] != right[0],
    ensures
        text_below(common + left, common + right) <==> right.len() > 0 && (left.len() == 0 || (
        left[0] as int) < right[0] as int),
    decreases common.len(),
{
    if common.len() == 0 {
        assert(common + left =~= left);
        assert(common + right =~= right);
    } else {
        assert((common + left).drop_first() =~= common.drop_first() + left);
        assert((common + right).drop_first() =~= common.drop_first() + right);
        texts_are_ordered_by_their_first_difference(common.drop_first(), left, right);
    }
}

/// Sorting keeps every asset, puts none before one with a smaller path, and leaves those with the
/// same path in their order.
pub proof fn sorting_orders_by_path_and_keeps_the_rest(
    assets: Vec<ThemeRuntimeAsset>,
    sorted: Vec<ThemeRuntimeAsset>,
    i: int,
    j: int,
    path: Seq<char>,
)
    requires
        call_ensures(sort_assets, (assets,), sorted),
    ensures
        sorted@.len() == assets@.len(),
        0 <= i < j < sorted@.len() ==> !text_below(sorted@[j].path@, sorted@[i].path@),
        sorted@.filter(|asset: ThemeRuntimeAsset| asset.path@ == path) == assets@.filter(
            |asset: ThemeRuntimeAsset| asset.path@ == path,
        ),
{
    let same = with_path(path);
    assert(sorted@.filter(same) == assets@.filter(same));
    assert(same =~= |asset: ThemeRuntimeAsset| asset.path@ == path);
}

/// A table has the address that it was given, the bytes of its token in hexadecimal digits, and its
/// assets sorted by their paths.
pub proof fn table_is_made_of_what_it_is_given(
    address: &str,
    token_bytes: &[u8],
    assets: Vec<ThemeRuntimeAsset>,
    table: AssetTable,
    i: int,
    j: int,
    path: Seq<char>,
)
    requires
        call_ensures(AssetTable::with_token, (address, token_bytes, assets), table),
    ensures
        table.address@ == address@,
        table.token@ == hex_text(token_bytes@),
        table.assets@.len() == assets@.len(),
        0 <= i < j < table.assets@.len() ==> !text_below(
            table.assets@[j].path@,
            table.assets@[i].path@,
        ),
        table.assets@.filter(|asset: ThemeRuntimeAsset| asset.path@ == path) == assets@.filter(
            |asset: ThemeRuntimeAsset| asset.path@ == path,
        ),
{
    let same = with_path(path);
    assert(table.assets@.filter(same) == assets@.filter(same));
    assert(same =~= |asset: ThemeRuntimeAsset| asset.path@ == path);
}

/// A random token is made of the bytes that the random source has given, and where it has given none
/// its message is told.
pub proof fn random_token_is_made_of_the_random_bytes(
    address: &str,
    random: Result<Vec<u8>, String>,
    assets: Vec<ThemeRuntimeAsset>,
    made: Result<AssetTable, CodexError>,
)
    requires
        call_ensures(AssetTable::with_random_token, (address, random, assets), made),
    ensures
        random is Ok <==> made is Ok,
        made is Ok ==> made->Ok_0.address@ == address@ && made->Ok_0.token@ == hex_text(
            random->Ok_0@,
        ) && made->Ok_0.assets@.len() == assets@.len(),
        made is Err ==> made->Err_0@ == random->Err_0@,
{
}

/// A new table has a token of 64 hexadecimal digits, the address that it was given and as many
/// assets.
pub proof fn new_table_has_a_long_token(
    address: &str,
    assets: Vec<ThemeRuntimeAsset>,
    made: Result<AssetTable, CodexError>,
)
    requires
        call_ensures(AssetTable::new, (address, assets), made),
    ensures
        made is Ok ==> made->Ok_0.token@.len() == 64 && made->Ok_0.address@ == address@
            && made->Ok_0.assets@.len() == assets@.len(),
{
    if let Ok(table) = made {
        let token_bytes = choose|token_bytes: Seq<u8>|
            token_bytes.len() == TOKEN_SIZE && table.serves(address@, token_bytes, assets@);
        assert(hex_text(token_bytes).len() == 2 * token_bytes.len());
    }
}

/// The page finds an asset, and the revocation, at the address of the table, under its token: an
/// asset under its index, the revocation under `revoke`.
pub proof fn urls_lead_to_the_table(
    table: AssetTable,
    index: usize,
    route: String,
    revoke_path: String,
    revoke_url: String,
    urls: Vec<(String, String)>,
)
    requires
        call_ensures(AssetTable::route, (&table, index), route),
        call_ensures(AssetTable::revoke_path, (&table,), revoke_path),
        call_ensures(AssetTable::revoke_url, (&table,), revoke_url),
        call_ensures(AssetTable::asset_urls, (&table,), urls),
    ensures
        route@ == "/"@ + table.token@ + "/"@ + decimal(index as nat),
        revoke_path@ == "/"@ + table.token@ + "/revoke"@,
        revoke_url@ == "http://"@ + table.address@ + ("/"@ + table.token@ + "/revoke"@),
        urls@.len() == table.assets@.len(),
        index < urls@.len() ==> urls@[index as int].0@ == table.assets@[index as int].path@
            && urls@[index as int].1@ == "http://"@ + table.address@ + ("/"@ + table.token@ + "/"@
            + decimal(index as nat)),
{
    reveal_strlit("/");
    assert("/"@ =~= seq!['/']);
}

/// A path leads to an asset exactly where it is that of its index under the token of the table.
pub proof fn path_leads_to_the_asset_of_its_index(
    table: AssetTable,
    path: &str,
    found: Option<usize>,
    index: usize,
)
    requires
        call_ensures(AssetTable::find_route, (&table, path), found),
    ensures
        index < table.assets@.len() ==> (path@ == "/"@ + table.token@ + "/"@ + decimal(index as nat)
            <==> found == Some(index)),
        found is Some ==> found->0 < table.assets@.len(),
{
    reveal_strlit("/");
    assert("/"@ =~= seq!['/']);
    if index < table.assets@.len() {
        lemma_index_of(table, index as int);
    }
    if let Some(at) = found {
        assert(path@ == asset_route(table.token@, at as nat));
    }
}

} // verus!
