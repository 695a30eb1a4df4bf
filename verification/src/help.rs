//! Help overlays: titled sections of bindings (a key or call, and what it does). The Lua
//! bindings page shows the modules reachable from a script context's global table (the
//! context's own section first, then the sections every context shares); the script table
//! page lists the table's own keys.
use vstd::prelude::*;

use crate::text::owned;

verus! {

/// One titled group of bindings.
#[derive(Debug)]
pub struct BindingSection {
    pub title: String,
    pub entries: Vec<(String, String)>,
}

/// The model of a section: its title and its `(binding, description)` pairs.
pub type SectionView = (Seq<char>, Seq<(Seq<char>, Seq<char>)>);

impl View for BindingSection {
    type V = SectionView;

    open spec fn view(&self) -> SectionView {
        (self.title@, self.entries@.map_values(|e: (String, String)| (e.0@, e.1@)))
    }
}

/// A help page: a title and its sections.
#[derive(Debug)]
pub struct HelpOverlay {
    pub title: String,
    pub sections: Vec<BindingSection>,
}

impl HelpOverlay {
    pub open spec fn section_views(&self) -> Seq<SectionView> {
        self.sections@.map_values(|s: BindingSection| s@)
    }

    pub fn new(title: &str, sections: Vec<BindingSection>) -> (r: Self)
        ensures
            r.title@ == title@,
            r.sections@ == sections@,
    {
        HelpOverlay { title: owned(title), sections }
    }
}

/// Which script the overlay describes bindings for.
#[derive(Clone, Copy, Debug, PartialEq, Eq, Structural)]
pub enum ScriptContext {
    Modbus,
    OcppClient,
    OcppServer,
    Session,
}

fn pair(binding: &str, description: &str) -> (r: (String, String))
    ensures
        r.0@ == binding@,
        r.1@ == description@,
{
    (owned(binding), owned(description))
}

/// The `C_Register` section.
pub open spec fn spec_register_section() -> SectionView {
    (
        "C_Register"@,
        seq![
            ("C_Register:Get(name)"@, "read a register's value"@),
            ("C_Register:Set(name, value)"@, "write a register's value"@),
        ],
    )
}

fn register_section() -> (r: BindingSection)
    ensures
        r@ == spec_register_section(),
{
    let mut entries: Vec<(String, String)> = Vec::new();
    entries.push(pair("C_Register:Get(name)", "read a register's value"));
    entries.push(pair("C_Register:Set(name, value)", "write a register's value"));
    let r = BindingSection { title: owned("C_Register"), entries };
    assert(r@.1 =~= spec_register_section().1);
    r
}

/// The `C_OCPP` section.
pub open spec fn spec_ocpp_client_section() -> SectionView {
    (
        "C_OCPP"@,
        seq![
            ("C_OCPP:Get(name)"@, "read charging-station-level state"@),
            ("C_OCPP:Set(name, value)"@, "write charging-station-level state"@),
            ("C_OCPP:<Action>(overrides?)"@, "one method per OCPP action, e.g. StartTransaction({ idTag = \"ABC\" })"@),
            ("C_OCPP:Connector(id)"@, "accessor scoped to one connector, with its own Get/Set/<Action>"@),
        ],
    )
}

fn ocpp_client_section() -> (r: BindingSection)
    ensures
        r@ == spec_ocpp_client_section(),
{
    let mut entries: Vec<(String, String)> = Vec::new();
    entries.push(pair("C_OCPP:Get(name)", "read charging-station-level state"));
    entries.push(pair("C_OCPP:Set(name, value)", "write charging-station-level state"));
    entries.push(pair("C_OCPP:<Action>(overrides?)", "one method per OCPP action, e.g. StartTransaction({ idTag = \"ABC\" })"));
    entries.push(pair("C_OCPP:Connector(id)", "accessor scoped to one connector, with its own Get/Set/<Action>"));
    let r = BindingSection { title: owned("C_OCPP"), entries };
    assert(r@.1 =~= spec_ocpp_client_section().1);
    r
}

/// The `C_OCPP` section.
pub open spec fn spec_ocpp_server_section() -> SectionView {
    (
        "C_OCPP"@,
        seq![
            ("C_OCPP:GetChargingStations()"@, "list known charging station ids"@),
            ("C_OCPP:GetConnectors(cs)"@, "list connector ids for a station"@),
            ("C_OCPP:ChargingStation(cs)"@, "accessor scoped to one station, with its own Get/Set/<Action>"@),
            ("C_OCPP:Connector(cs, id)"@, "accessor scoped to one connector, with its own Get/Set/<Action>"@),
            ("<accessor>:<Action>(overrides?)"@, "one method per OCPP action, e.g. MeterValues({ energy = 100 })"@),
        ],
    )
}

fn ocpp_server_section() -> (r: BindingSection)
    ensures
        r@ == spec_ocpp_server_section(),
{
    let mut entries: Vec<(String, String)> = Vec::new();
    entries.push(pair("C_OCPP:GetChargingStations()", "list known charging station ids"));
    entries.push(pair("C_OCPP:GetConnectors(cs)", "list connector ids for a station"));
    entries.push(pair("C_OCPP:ChargingStation(cs)", "accessor scoped to one station, with its own Get/Set/<Action>"));
    entries.push(pair("C_OCPP:Connector(cs, id)", "accessor scoped to one connector, with its own Get/Set/<Action>"));
    entries.push(pair("<accessor>:<Action>(overrides?)", "one method per OCPP action, e.g. MeterValues({ energy = 100 })"));
    let r = BindingSection { title: owned("C_OCPP"), entries };
    assert(r@.1 =~= spec_ocpp_server_section().1);
    r
}

/// The `C_Module` section.
pub open spec fn spec_module_section() -> SectionView {
    (
        "C_Module"@,
        seq![
            ("C_Module:List()"@, "sorted names of every module in the session"@),
            ("C_Module:Get(name)"@, "resolve a module by name to a handle (raises if unknown)"@),
            ("<module>:Type()"@, "module kind, e.g. \"modbus\" or \"ocpp\""@),
            ("<module>:Role()"@, "module role, e.g. \"client\" or \"server\""@),
            ("<module>:Register()"@, "C_Register-shaped accessor (modbus modules only)"@),
            ("<register>:Get(name)"@, "read a register's value"@),
            ("<register>:Set(name, value)"@, "write a register's value"@),
            ("<module>:OCPP()"@, "C_OCPP-shaped accessor (ocpp modules only)"@),
            ("<ocpp>:GetChargingStations()"@, "list known charging station ids"@),
            ("<ocpp>:GetConnectors(cs)"@, "list connector ids for a station"@),
            ("<ocpp>:ChargingStation(cs)"@, "accessor scoped to one station, with its own Get/Set/<Action>"@),
            ("<ocpp>:Connector(cs, id)"@, "accessor scoped to one connector, with its own Get/Set/<Action>"@),
            ("<ocpp-accessor>:<Action>(json?)"@, "one method per OCPP action, e.g. MeterValues({ energy = 100 })"@),
        ],
    )
}

fn module_section() -> (r: BindingSection)
    ensures
        r@ == spec_module_section(),
{
    let mut entries: Vec<(String, String)> = Vec::new();
    entries.push(pair("C_Module:List()", "sorted names of every module in the session"));
    entries.push(pair("C_Module:Get(name)", "resolve a module by name to a handle (raises if unknown)"));
    entries.push(pair("<module>:Type()", "module kind, e.g. \"modbus\" or \"ocpp\""));
    entries.push(pair("<module>:Role()", "module role, e.g. \"client\" or \"server\""));
    entries.push(pair("<module>:Register()", "C_Register-shaped accessor (modbus modules only)"));
    entries.push(pair("<register>:Get(name)", "read a register's value"));
    entries.push(pair("<register>:Set(name, value)", "write a register's value"));
    entries.push(pair("<module>:OCPP()", "C_OCPP-shaped accessor (ocpp modules only)"));
    entries.push(pair("<ocpp>:GetChargingStations()", "list known charging station ids"));
    entries.push(pair("<ocpp>:GetConnectors(cs)", "list connector ids for a station"));
    entries.push(pair("<ocpp>:ChargingStation(cs)", "accessor scoped to one station, with its own Get/Set/<Action>"));
    entries.push(pair("<ocpp>:Connector(cs, id)", "accessor scoped to one connector, with its own Get/Set/<Action>"));
    entries.push(pair("<ocpp-accessor>:<Action>(json?)", "one method per OCPP action, e.g. MeterValues({ energy = 100 })"));
    let r = BindingSection { title: owned("C_Module"), entries };
    assert(r@.1 =~= spec_module_section().1);
    r
}

/// The `C_Time` section.
pub open spec fn spec_time_section() -> SectionView {
    (
        "C_Time"@,
        seq![
            ("C_Time:Get()"@, "seconds elapsed since module start"@),
            ("C_Time:GetMs()"@, "milliseconds elapsed since module start"@),
        ],
    )
}

fn time_section() -> (r: BindingSection)
    ensures
        r@ == spec_time_section(),
{
    let mut entries: Vec<(String, String)> = Vec::new();
    entries.push(pair("C_Time:Get()", "seconds elapsed since module start"));
    entries.push(pair("C_Time:GetMs()", "milliseconds elapsed since module start"));
    let r = BindingSection { title: owned("C_Time"), entries };
    assert(r@.1 =~= spec_time_section().1);
    r
}

/// The `C_Test` section.
pub open spec fn spec_test_section() -> SectionView {
    (
        "C_Test"@,
        seq![
            ("C_Test:Assert(cond, msg)"@, "raise if cond is falsy (nil/false)"@),
            ("C_Test:Fail(msg)"@, "always raise"@),
        ],
    )
}

fn test_section() -> (r: BindingSection)
    ensures
        r@ == spec_test_section(),
{
    let mut entries: Vec<(String, String)> = Vec::new();
    entries.push(pair("C_Test:Assert(cond, msg)", "raise if cond is falsy (nil/false)"));
    entries.push(pair("C_Test:Fail(msg)", "always raise"));
    let r = BindingSection { title: owned("C_Test"), entries };
    assert(r@.1 =~= spec_test_section().1);
    r
}

/// The `C_Log` section.
pub open spec fn spec_log_section() -> SectionView {
    (
        "C_Log"@,
        seq![
            ("C_Log:Info(message)"@, "append an info line to the module log"@),
            ("C_Log:Warn(message)"@, "append a warning line to the module log"@),
            ("C_Log:Error(message)"@, "append an error line to the module log"@),
        ],
    )
}

fn log_section() -> (r: BindingSection)
    ensures
        r@ == spec_log_section(),
{
    let mut entries: Vec<(String, String)> = Vec::new();
    entries.push(pair("C_Log:Info(message)", "append an info line to the module log"));
    entries.push(pair("C_Log:Warn(message)", "append a warning line to the module log"));
    entries.push(pair("C_Log:Error(message)", "append an error line to the module log"));
    let r = BindingSection { title: owned("C_Log"), entries };
    assert(r@.1 =~= spec_log_section().1);
    r
}

/// The `print` section.
pub open spec fn spec_print_section() -> SectionView {
    (
        "print"@,
        seq![
            ("print(...)"@, "redirected to the module log, like C_Log:Info"@),
        ],
    )
}

fn print_section() -> (r: BindingSection)
    ensures
        r@ == spec_print_section(),
{
    let mut entries: Vec<(String, String)> = Vec::new();
    entries.push(pair("print(...)", "redirected to the module log, like C_Log:Info"));
    let r = BindingSection { title: owned("print"), entries };
    assert(r@.1 =~= spec_print_section().1);
    r
}

/// The `Script list` section (script table keys).
pub open spec fn spec_script_keys_section() -> SectionView {
    (
        "Script list"@,
        seq![
            ("Enter"@, "rename the selected script"@),
            ("e"@, "run the selected script once, using the editor's current content and ignoring its enabled flag"@),
            ("t"@, "toggle the selected script between enabled and disabled"@),
            ("d"@, "delete the selected script (asks for confirmation)"@),
            ("c"@, "toggle compact rows"@),
        ],
    )
}

fn script_keys_section() -> (r: BindingSection)
    ensures
        r@ == spec_script_keys_section(),
{
    let mut entries: Vec<(String, String)> = Vec::new();
    entries.push(pair("Enter", "rename the selected script"));
    entries.push(pair("e", "run the selected script once, using the editor's current content and ignoring its enabled flag"));
    entries.push(pair("t", "toggle the selected script between enabled and disabled"));
    entries.push(pair("d", "delete the selected script (asks for confirmation)"));
    entries.push(pair("c", "toggle compact rows"));
    let r = BindingSection { title: owned("Script list"), entries };
    assert(r@.1 =~= spec_script_keys_section().1);
    r
}
/// The section a script context adds of its own.
pub open spec fn spec_context_section(ctx: ScriptContext) -> SectionView {
    match ctx {
        ScriptContext::Modbus => spec_register_section(),
        ScriptContext::OcppClient => spec_ocpp_client_section(),
        ScriptContext::OcppServer => spec_ocpp_server_section(),
        ScriptContext::Session => spec_module_section(),
    }
}

/// The sections of a context's Lua bindings page: its own, then `C_Time`, `C_Test`, `C_Log`
/// and `print`.
pub open spec fn spec_sections(ctx: ScriptContext) -> Seq<SectionView> {
    seq![
        spec_context_section(ctx),
        spec_time_section(),
        spec_test_section(),
        spec_log_section(),
        spec_print_section(),
    ]
}

/// The Lua-binding sections of `ctx`: its own section first, then the shared ones.
pub fn sections(ctx: ScriptContext) -> (r: Vec<BindingSection>)
    ensures
        r@.map_values(|s: BindingSection| s@) == spec_sections(ctx),
{
    let mut r: Vec<BindingSection> = Vec::new();
    r.push(
        match ctx {
            ScriptContext::Modbus => register_section(),
            ScriptContext::OcppClient => ocpp_client_section(),
            ScriptContext::OcppServer => ocpp_server_section(),
            ScriptContext::Session => module_section(),
        },
    );
    r.push(time_section());
    r.push(test_section());
    r.push(log_section());
    r.push(print_section());
    assert(r@.map_values(|s: BindingSection| s@) =~= spec_sections(ctx));
    r
}

/// The Lua-bindings help page for `ctx`.
pub fn lua_help_overlay(ctx: ScriptContext) -> (r: HelpOverlay)
    ensures
        r.title@ == "Lua Bindings"@,
        r.section_views() == spec_sections(ctx),
{
    HelpOverlay::new("Lua Bindings", sections(ctx))
}

/// The keybind-help page of the script table.
pub fn script_keys_overlay() -> (r: HelpOverlay)
    ensures
        r.title@ == "Script List Keys"@,
        r.section_views() == seq![spec_script_keys_section()],
{
    let mut s: Vec<BindingSection> = Vec::new();
    s.push(script_keys_section());
    let r = HelpOverlay::new("Script List Keys", s);
    assert(r.section_views() =~= seq![spec_script_keys_section()]);
    r
}

/// The section titles of a page.
pub open spec fn titles(secs: Seq<SectionView>) -> Seq<Seq<char>> {
    secs.map_values(|s: SectionView| s.0)
}

/// Every context's page offers `C_Time`, `C_Test`, `C_Log` and `print` after its own section;
/// the Modbus page offers `C_Register` and no `C_OCPP`, both OCPP pages offer `C_OCPP`, and
/// the session page offers `C_Module`.
pub proof fn lemma_sections_by_context(ctx: ScriptContext)
    ensures
        titles(spec_sections(ctx)).len() == 5,
        titles(spec_sections(ctx))[1] == "C_Time"@,
        titles(spec_sections(ctx))[2] == "C_Test"@,
        titles(spec_sections(ctx))[3] == "C_Log"@,
        titles(spec_sections(ctx))[4] == "print"@,
        ctx == ScriptContext::Modbus ==> titles(spec_sections(ctx))[0] == "C_Register"@
            && !titles(spec_sections(ctx)).contains("C_OCPP"@),
        (ctx == ScriptContext::OcppClient || ctx == ScriptContext::OcppServer) ==> titles(
            spec_sections(ctx),
        )[0] == "C_OCPP"@,
        ctx == ScriptContext::Session ==> titles(spec_sections(ctx))[0] == "C_Module"@,
{
    reveal_strlit("C_OCPP");
    reveal_strlit("C_Register");
    reveal_strlit("C_Time");
    reveal_strlit("C_Test");
    reveal_strlit("C_Log");
    reveal_strlit("print");
    let t = titles(spec_sections(ctx));
    if ctx == ScriptContext::Modbus {
        assert("C_Register"@ != "C_OCPP"@) by {
            assert("C_Register"@.len() != "C_OCPP"@.len());
        }
        assert("C_Time"@ != "C_OCPP"@) by {
            assert("C_Time"@[2] != "C_OCPP"@[2]);
        }
        assert("C_Test"@ != "C_OCPP"@) by {
            assert("C_Test"@[2] != "C_OCPP"@[2]);
        }
        assert("C_Log"@ != "C_OCPP"@) by {
            assert("C_Log"@.len() != "C_OCPP"@.len());
        }
        assert("print"@ != "C_OCPP"@) by {
            assert("print"@.len() != "C_OCPP"@.len());
        }
        assert forall|i: int| 0 <= i < t.len() implies t[i] != "C_OCPP"@ by {
            assert(i == 0 || i == 1 || i == 2 || i == 3 || i == 4);
        }
    }
}

/// `s` holds `p` somewhere.
pub open spec fn mentions(s: Seq<char>, p: Seq<char>) -> bool {
    exists|i: int| 0 <= i && i + p.len() <= s.len() && #[trigger] s.subrange(i, i + p.len()) == p
}

/// Some binding of a section mentions `p`.
pub open spec fn section_mentions(sec: SectionView, p: Seq<char>) -> bool {
    exists|j: int| 0 <= j < sec.1.len() && mentions(#[trigger] sec.1[j].0, p)
}

/// The OCPP server page's `C_OCPP` section lists the known charging stations, and the OCPP
/// client page's offers a per-connector accessor.
pub proof fn lemma_ocpp_sections_mention()
    ensures
        section_mentions(spec_sections(ScriptContext::OcppServer)[0], "GetChargingStations"@),
        section_mentions(spec_sections(ScriptContext::OcppClient)[0], "Connector"@),
{
    reveal_strlit("C_OCPP:GetChargingStations()");
    reveal_strlit("GetChargingStations");
    reveal_strlit("C_OCPP:Connector(id)");
    reveal_strlit("Connector");
    let srv = spec_sections(ScriptContext::OcppServer)[0];
    let b0 = srv.1[0].0;
    assert(b0 == "C_OCPP:GetChargingStations()"@);
    assert(b0.subrange(7, 26) =~= "GetChargingStations"@);
    assert(b0.subrange(7, 7int + "GetChargingStations"@.len()) == "GetChargingStations"@);
    assert(mentions(b0, "GetChargingStations"@));
    let cli = spec_sections(ScriptContext::OcppClient)[0];
    let b3 = cli.1[3].0;
    assert(b3 == "C_OCPP:Connector(id)"@);
    assert(b3.subrange(7, 16) =~= "Connector"@);
    assert(b3.subrange(7, 7int + "Connector"@.len()) == "Connector"@);
    assert(mentions(b3, "Connector"@));
}

} // verus!
