use vstd::prelude::*;

verus! {

/// Notional balance, in lamports, that the router rolls a cycle's weight up against.
pub const INITIAL_BALANCE: u64 = 100_000_000_000;

/// The value of the last pair named `name`.
pub open spec fn env_lookup(vars: Seq<(String, String)>, name: Seq<char>) -> Option<Seq<char>>
    decreases vars.len(),
{
    if vars.len() == 0 {
        None
    } else if vars.last().0@ == name {
        Some(vars.last().1@)
    } else {
        env_lookup(vars.drop_last(), name)
    }
}

/// Endpoints and credentials of the process.
#[derive(Debug, Clone)]
pub struct Config {
    pub local_api_host: String,
    pub solana_rpc_url: String,
    pub wallet_private_key: String,
    pub jupiter_program_id: String,
    pub helius_api_key: String,
    pub helius_rpc_url: String,
    pub helius_enhanced_rpc_url: String,
    pub helius_websocket_url: String,
    pub helius_yellowstone_endpoint: String,
    pub helius_yellowstone_auth_token: String,
    pub dest_ip_ports: String,
    pub jito_udp_port: String,
}

/// The value of a required variable, or its name when it is missing.
fn required(vars: &Vec<(String, String)>, name: &str) -> (r: Result<String, String>)
    ensures
        env_lookup(vars@, name@) is Some <==> r is Ok,
        r is Ok ==> r->Ok_0@ == env_lookup(vars@, name@)->Some_0,
        r is Err ==> r->Err_0@ == name@,
{
    let key = name.to_owned();
    let mut i: usize = vars.len();
    assert(vars@.subrange(0, i as int) =~= vars@);
    while i > 0
        invariant
            i <= vars@.len(),
            key@ == name@,
            env_lookup(vars@, name@) == env_lookup(vars@.subrange(0, i as int), name@),
        decreases i,
    {
        assert(vars@.subrange(0, i as int).drop_last() =~= vars@.subrange(0, i - 1));
        if vars[i - 1].0 == key {
            return Ok(vars[i - 1].1.clone());
        }
        i = i - 1;
    }
    Err(key)
}

/// Reads the configuration from the process's variables, given as name and
/// value pairs; fails with the name of the first missing one.
pub fn get_config(vars: &Vec<(String, String)>) -> (r: Result<Config, String>)
    ensures
        r is Ok <==> (env_lookup(vars@, "LOCAL_API_HOST"@) is Some && env_lookup(vars@, "SOLANA_RPC_URL"@) is Some
            && env_lookup(vars@, "WALLET_PRIVATE_KEY"@) is Some && env_lookup(vars@, "JUPITER_PROGRAM_ID"@) is Some
            && env_lookup(vars@, "HELIUS_API_KEY"@) is Some && env_lookup(vars@, "HELIUS_RPC_URL"@) is Some
            && env_lookup(vars@, "HELIUS_ENCHANCED_RPC_URL"@) is Some && env_lookup(vars@, "HELIUS_WEBSOCKET_URL"@) is Some
            && env_lookup(vars@, "HELIUS_YELLOWSTONE_ENDPOINT"@) is Some && env_lookup(
            vars@,
            "HELIUS_YELLOWSTONE_AUTH_TOKEN"@,
        ) is Some && env_lookup(vars@, "DEST_IP_PORTS"@) is Some && env_lookup(vars@, "JITO_UDP_PORT"@) is Some),
        r is Ok ==> {
            let c = r->Ok_0;
            &&& Some(c.local_api_host@) == env_lookup(vars@, "LOCAL_API_HOST"@)
            &&& Some(c.solana_rpc_url@) == env_lookup(vars@, "SOLANA_RPC_URL"@)
            &&& Some(c.wallet_private_key@) == env_lookup(vars@, "WALLET_PRIVATE_KEY"@)
            &&& Some(c.jupiter_program_id@) == env_lookup(vars@, "JUPITER_PROGRAM_ID"@)
            &&& Some(c.helius_api_key@) == env_lookup(vars@, "HELIUS_API_KEY"@)
            &&& Some(c.helius_rpc_url@) == env_lookup(vars@, "HELIUS_RPC_URL"@)
            &&& Some(c.helius_enhanced_rpc_url@) == env_lookup(vars@, "HELIUS_ENCHANCED_RPC_URL"@)
            &&& Some(c.helius_websocket_url@) == env_lookup(vars@, "HELIUS_WEBSOCKET_URL"@)
            &&& Some(c.helius_yellowstone_endpoint@) == env_lookup(vars@, "HELIUS_YELLOWSTONE_ENDPOINT"@)
            &&& Some(c.helius_yellowstone_auth_token@) == env_lookup(vars@, "HELIUS_YELLOWSTONE_AUTH_TOKEN"@)
            &&& Some(c.dest_ip_ports@) == env_lookup(vars@, "DEST_IP_PORTS"@)
            &&& Some(c.jito_udp_port@) == env_lookup(vars@, "JITO_UDP_PORT"@)
        },
{
    let local_api_host = required(vars, "LOCAL_API_HOST")?;
    let solana_rpc_url = required(vars, "SOLANA_RPC_URL")?;
    let wallet_private_key = required(vars, "WALLET_PRIVATE_KEY")?;
    let jupiter_program_id = required(vars, "JUPITER_PROGRAM_ID")?;
    let helius_api_key = required(vars, "HELIUS_API_KEY")?;
    let helius_rpc_url = required(vars, "HELIUS_RPC_URL")?;
    let helius_enhanced_rpc_url = required(vars, "HELIUS_ENCHANCED_RPC_URL")?;
    let helius_websocket_url = required(vars, "HELIUS_WEBSOCKET_URL")?;
    let helius_yellowstone_endpoint = required(vars, "HELIUS_YELLOWSTONE_ENDPOINT")?;
    let helius_yellowstone_auth_token = required(vars, "HELIUS_YELLOWSTONE_AUTH_TOKEN")?;
    let dest_ip_ports = required(vars, "DEST_IP_PORTS")?;
    let jito_udp_port = required(vars, "JITO_UDP_PORT")?;
    Ok(
        Config {
            local_api_host,
            solana_rpc_url,
            wallet_private_key,
            jupiter_program_id,
            helius_api_key,
            helius_rpc_url,
            helius_enhanced_rpc_url,
            helius_websocket_url,
            helius_yellowstone_endpoint,
            helius_yellowstone_auth_token,
            dest_ip_ports,
            jito_udp_port,
        },
    )
}

/// Amounts used when trying quotes by hand.
#[derive(Debug, Clone, Copy, PartialEq, Eq, Structural)]
pub struct Params {
    pub slippage_bps: u64,
    pub amount_in: u64,
    pub amount_out: u64,
}

impl Default for Params {
    fn default() -> (r: Params)
        ensures
            r == (Params { slippage_bps: 50, amount_in: 100_000_000_000, amount_out: 1_000_000 }),
    {
        Params { slippage_bps: 50, amount_in: 100_000_000_000, amount_out: 1_000_000 }
    }
}

} // verus!
