//! Playbook catalogue: the texts of the built-in playbooks, the playbooks
//! seeded into a fresh journal, and the decisions taken when seeding.
use vstd::prelude::*;
use crate::text::{contains_sub, lowercase, lowercase_of, str_contains_str, str_eq, str_in_list};

verus! {

/// The thesis shown for the Ratio Spread playbook.
pub const RATIO_SPREAD_THESIS: &'static str = "\
Overview:
• Omnidirectional undefined-risk trade: long put spread funded by an extra short put, entered for a net credit.
• No risk to the upside; max profit is at the short strike. Also known as a put ratio spread.

Setup:
• 1. Buy an ATM or OTM put (long leg)
• 2. Sell two further OTM puts for a net credit
• Max Profit: Width of Long Spread + Credit Received
• Max Loss: Breakeven Price × 100 (undefined to the downside)
• Profit Target: 50% of Credit Received or 25% of Long Spread Width
• Breakeven: Short Put Strike – (Long Spread Width + Credit Received)

Greeks:
• Delta: Long / Dynamic
• Vega: Short (benefits from vol contraction)
• Theta: Long (benefits from time decay)
• Gamma: Dynamic

How The Trade Works:
• Ideal: The stock moves toward the short strikes near expiration. Ratio spreads are omnidirectional — they profit from a stock price increase or a move down toward the short strikes. Max profit occurs when the long spread is fully ITM exactly at the short strike.
• Not Ideal: The stock moves well below the short strikes and through our breakeven. This pushes us into the loss zone because the uncovered short put has undefined downside risk.

Defensive Tactics:
• The naked short put is where the risk lives. Rolling it out in time for a credit adds extrinsic value and more time without adding risk.
• The long put spread will be near max value when we are seeing losses — it can be closed for an additional credit against the remaining short put.

Volatility:
• If Volatility Expands: We may hold. An extrinsic value loss is possible if paired with a bearish move in price. Extrinsic value goes to zero by expiration regardless.
• If Volatility Contracts: The spread can lose value when contraction pairs with a bullish move. Options: close for a profit, or buy an OTM put to convert to a symmetrical butterfly. If the put costs less than the original credit, we lock in a guaranteed profit and remove buying power risk.

Expiration:
• If Partially ITM: We can likely sell the long put spread for a profit. Consider closing the whole trade.
• If ITM: Close the long put spread to secure value, then roll or close the remaining short put.
• If OTM: All strikes expire worthless. Keep the credit received on entry as profit.

Takeaways:
• We need extrinsic value close to zero before realizing intrinsic value on the long spread. Moving ITM too early can produce extrinsic losses even when inside the max-profit zone. Hold ratio spreads closer to expiration to avoid passing through the profit zone before hitting the loss zone.
• For earnings plays, use the weekly cycle — we need the stock to move toward our spread AND extrinsic value to be near zero to capture the long spread's intrinsic value.";

/// The thesis shown for the Put Broken Wing Butterfly playbook.
pub const PUT_BWB_THESIS: &'static str = "\
Omnidirectional, defined risk trade: long put spread with a wider OTM short put spread to finance the trade for a net credit. No risk to the upside; max profit at the short strikes.

I. CORE MECHANICS:
• Directional Assumption: Omnidirectional
• IV Environment: High (benefits from elevated premiums)
• Days to Expiration: 15 to 45
• Probability of Profit: 60% to 80%

II. SETUP:
• 1. Buy 1 ATM/OTM put (long anchor)
• 2. Sell 2 further OTM puts (short spread — the financing leg)
• 3. Buy 1 much further OTM put (long wing — defines the risk)
• Net Credit: The OTM short put spread is wider than the long put spread, generating a net credit.
• Example: With XYZ at $100 — Buy 100 put, Sell two 97 puts, Buy 91 put for a small credit.

III. FINANCIAL PROFILE:
• Max Profit: Width of Long Spread + Credit Received (achieved when stock pins at short strikes)
• Max Loss: Short Spread Width – Long Spread Width – Credit Received (defined, to the downside only)
• Profit Target: 50% of Credit Received or 25% of Long Spread Width
• Breakeven: Short Put Strike – (Long Spread Width + Credit Received)
• No risk to the upside if entered for a credit.

IV. THE GREEKS:
• Delta: Long / Dynamic (benefits from downward move toward short strikes)
• Vega: Short (benefits from IV contraction)
• Theta: Long (benefits from time decay)
• Gamma: Dynamic

V. MANAGEMENT & DEFENSIVE TACTICS:
• Ideal: Stock moves toward the short strikes near expiration. The long put spread realizes max value, the short put spread expires worthless, and we keep the full credit. The spread can also profit on an upside move since it was entered for a credit.
• Not Ideal: Spread moves fully ITM — max loss. If stock moves too quickly toward the spread, extrinsic value loss can erode profits since the bulk of the potential P&L requires extrinsic value to be low.
• Remove Risk Early: If the spread moves further OTM, roll into a symmetrical butterfly for a debit less than the original credit — locks in a small guaranteed profit and removes initial risk.
• If Long Spread Is ITM Near Max Value: Sell it out to retain that value, then either hold the credit spread or adjust the trade into an iron condor.
• If Volatility Expands: Limited vega exposure due to defined risk, but could result in an extrinsic value marked loss.
• If Volatility Contracts: Easier to \"fly off\" risk by rolling to a symmetrical butterfly for a debit less than the credit received.
• If Partially ITM at Expiration: Sell for a profit if in the profit zone — long spread increases in value, short spread decreases.
• If ITM at Expiration: At max loss. Close to avoid assignment.
• If OTM at Expiration: All strikes expire worthless — keep the full credit as profit.

Takeaways:
• Put BWBs are ideal in products with put skew — skew lets us make them wider or collect a larger credit upfront.
• BWBs don't appreciate in value much until close to expiration when extrinsic value approaches zero. Primary goal: remove risk early by rolling to a symmetrical butterfly if the spread moves further OTM for a debit less than the original credit — lock in a small profit and eliminate initial risk.";

/// The description shown for the Short Put Vertical playbook.
pub const SHORT_PUT_VERTICAL_DESC: &'static str = "Neutral-Bullish defined risk credit trade betting against the stock moving below the short strike. Profits from the stock rising, staying flat, or decaying time.

I. CORE MECHANICS
\u{2022} Directional Assumption: Neutral-Bullish
\u{2022} IV Environment: High (Maximizes credit)
\u{2022} Ideal Expiration: 45 Days to Expiration (DTE)
\u{2022} Probability of Profit (POP): 60% to 80%

II. SETUP
1. Sell 1 OTM/ATM Put.
2. Buy 1 further OTM Put (defines max risk).
\u{2022} Goal: Collect ~1/3rd the width of the strikes in credit.

III. FINANCIAL PROFILE
\u{2022} Max Profit: Credit Received.
\u{2022} Max Loss: Distance Between Strikes - Credit Received.
\u{2022} Breakeven: Short Put Strike - Credit Received.
\u{2022} Profit Target: 50% of Max Profit.

IV. THE GREEKS
\u{2022} Delta: Long (Profits as stock rises)
\u{2022} Theta: Long (Profits from time decay)
\u{2022} Vega: Short (Hurt by volatility expansion)
\u{2022} Gamma: Flat

V. MANAGEMENT & DEFENSIVE TACTICS
\u{2022} Ideal Scenario: Stock rises or stays above the short strike, time passes, and volatility contracts.
\u{2022} Rolling Out: If the spread is tested, roll out to a farther expiration for a credit to add time, reduce max loss, and increase potential profit.
\u{2022} Early Profit: Close at 50% of max profit to secure gains and free up capital.

VI. EXPIRATION OUTCOMES
\u{2022} If OTM: Spread expires worthless. Close early to remove gap risk.
\u{2022} If ITM: Close the trade before expiration to realize max loss and avoid assignment fees.
\u{2022} If Partially ITM: (Between strikes) Roll out or close. Never let a tested spread go through expiration to avoid unwanted share assignment.";

/// The description shown for the Cash Secured Put playbook.
pub const CASH_SECURED_PUT_DESC: &'static str = "Bullish/Neutral strategy where we sell an OTM put and secure the potential assignment with cash. Used to generate income or acquire stock at a lower cost basis.

I. CORE MECHANICS
\u{2022} Directional Assumption: Bullish / Neutral
\u{2022} IV Environment: High (Ideal for maximizing premium)
\u{2022} Ideal Expiration: 45 Days to Expiration (DTE)
\u{2022} Probability of Profit (POP): 60% to 80%

II. SETUP
1. Identify a stock you are willing to own at a lower price.
2. Sell 1 OTM Put at ~30 Delta (Standard) or lower for more safety.
3. Ensure cash (Strike x 100) is reserved in the account to \"secure\" the position.

III. FINANCIAL PROFILE
\u{2022} Max Profit: Premium (Credit) Received.
\u{2022} Max Loss: (Short Strike - Credit Received) x 100 (Stock goes to zero).
\u{2022} Breakeven: Short Strike - Credit Received.
\u{2022} Profit Target: 50% of Max Profit.

IV. THE GREEKS
\u{2022} Delta: Long (Profits as stock rises)
\u{2022} Theta: Long (Profits from time decay)
\u{2022} Vega: Short (Hurt by volatility expansion)
\u{2022} Gamma: Flat / Dynamic

V. MANAGEMENT & DEFENSIVE TACTICS
\u{2022} Ideal Scenario: Stock stays above the short strike or rises. Put loses value through theta and is closed for a profit.
\u{2022} Managing Winners: Close at 50% of max profit or 21 DTE to reduce gamma risk and increase velocity of money.
\u{2022} Defensive Tactics: If the strike is tested, roll the position out in time for a net credit to buy time and reduce effective cost basis.
\u{2022} Transition: If assigned, you now own 100 shares. Transition to selling Covered Calls (The \"Wheel\").

VI. EXPIRATION OUTCOMES
\u{2022} If OTM: Put expires worthless. Keep the full premium and deploy another CSP if desired.
\u{2022} If ITM: Assigned 100 shares of stock at the strike price. Your effective entry price is the Breakeven.";

/// The description shown for the Covered Call playbook.
pub const COVERED_CALL_DESC: &'static str = "Bullish stock position where we sell an ATM/OTM call against 100 long shares to reduce cost basis. The short call risk is \"covered\" by the long shares.

I. CORE MECHANICS
\u{2022} Directional Assumption: Bullish
\u{2022} IV Environment: High (Ideal for maximizing premium)
\u{2022} Ideal Expiration: 45 Days to Expiration (DTE)
\u{2022} Probability of Profit (POP): 50% to 70%

II. SETUP
1. Buy 100 shares of the underlying stock.
2. Sell 1 ATM/OTM Call for every 100 shares owned.

III. FINANCIAL PROFILE
\u{2022} Max Profit: (Distance Between Stock Purchase & Short Call Strike) + Credit Received.
\u{2022} Max Loss: Stock Purchase Price - Credit Received (Stock going to zero).
\u{2022} Breakeven: Stock Purchase Price - Credit Received.
\u{2022} Profit Target: 50% of Max Profit.

IV. THE GREEKS
\u{2022} Delta: Long (Profit as stock rises)
\u{2022} Theta: Long (Profit from time decay)
\u{2022} Vega: Short (Hurt by volatility expansion)
\u{2022} Gamma: Dynamic

V. MANAGEMENT & DEFENSIVE TACTICS
\u{2022} Ideal Scenario: Stock moves up to the short call strike by expiration. Capture max extrinsic value + full stock gain.
\u{2022} Rolling for Credit: If the short call loses value, roll it out in time to add more extrinsic value and further reduce cost basis.
\u{2022} Rolling Down: If the stock drops, move the call strike down within the same cycle to collect more credit (avoid rolling below your breakeven).
\u{2022} Assignment Defense: If you want to keep the shares, roll the short call out and up BEFORE it goes ITM.

VI. EXPIRATION OUTCOMES
\u{2022} If OTM: Call expires worthless. Deploy another call in a further expiration cycle to continue reducing basis.
\u{2022} If ITM: Stock is \"Called Away\" (exercised). The position is closed, and you realize max profit.";

/// The description shown for the Iron Condor playbook.
pub const IRON_CONDOR_DESC: &'static str = "Neutral, defined risk strategy consisting of an OTM put credit spread and OTM call credit spread. We profit from the underlying staying between our short strikes through expiration.

I. CORE MECHANICS
\u{2022} Directional Assumption: Neutral
\u{2022} IV Environment: High (Best for maximizing credit)
\u{2022} Ideal Expiration: 45 Days to Expiration (DTE)
\u{2022} Probability of Profit (POP): 60% to 80%

II. SETUP
1. Sell 1 OTM Put Spread (Short Put + Long Put).
2. Sell 1 OTM Call Spread (Short Call + Long Call).
\u{2022} Goal: Collect ~1/3rd the width of the strikes in total credit.

III. FINANCIAL PROFILE
\u{2022} Max Profit: Total Credit Received.
\u{2022} Max Loss: Width of Widest Spread - Credit Received.
\u{2022} Breakeven (Lower): Short Put Strike - Total Credit.
\u{2022} Breakeven (Upper): Short Call Strike + Total Credit.
\u{2022} Profit Target: 50% of Max Profit.

IV. THE GREEKS
\u{2022} Delta: Flat (Neutral)
\u{2022} Theta: Long (Profit from time decay on both sides)
\u{2022} Vega: Short (Hurt by volatility expansion)
\u{2022} Gamma: Flat

V. MANAGEMENT & DEFENSIVE TACTICS
\u{2022} Ideal Scenario: Underlying stays between short strikes as time passes, allowing both sides to decay simultaneously.
\u{2022} Rolling the Untested Side: If one side is tested, roll the other side closer to the price to collect more credit and reduce max loss.
\u{2022} Extending Duration: Roll the entire spread (or the tested side) out in time for a credit to buy more time.
\u{2022} Volatility Play: If IV contracts, close for a winner even if price is near a strike.

VI. EXPIRATION OUTCOMES
\u{2022} If OTM: Both spreads expire worthless. Close early to remove gap risk and secure profit.
\u{2022} If ITM: Close the losing spread before expiration to avoid assignment fees and after-hours risk.";

/// The description shown for the Short Call Vertical playbook.
pub const SHORT_CALL_VERTICAL_DESC: &'static str = "Neutral-Bearish defined risk credit trade betting against the stock moving above the short strike. Profits from the stock falling, staying flat, or decaying time.

I. CORE MECHANICS
\u{2022} Directional Assumption: Neutral-Bearish
\u{2022} IV Environment: High (Maximizes credit)
\u{2022} Ideal Expiration: 45 Days to Expiration (DTE)
\u{2022} Probability of Profit (POP): 60% to 80%

II. SETUP
1. Sell 1 ATM/OTM Call.
2. Buy 1 further OTM Call (defines max risk).
\u{2022} Goal: Collect ~1/3rd the width of the strikes in credit.

III. FINANCIAL PROFILE
\u{2022} Max Profit: Credit Received.
\u{2022} Max Loss: Distance Between Strikes - Credit Received.
\u{2022} Breakeven: Short Call Strike + Credit Received.
\u{2022} Profit Target: 50% of Max Profit.

IV. THE GREEKS
\u{2022} Delta: Short (Profits as stock falls)
\u{2022} Theta: Long (Profits from time decay)
\u{2022} Vega: Short (Hurt by volatility expansion)
\u{2022} Gamma: Flat

V. MANAGEMENT & DEFENSIVE TACTICS
\u{2022} Ideal Scenario: Stock falls or stays below the short strike, time passes, and volatility contracts.
\u{2022} Rolling Out: If the spread is tested, roll out to a farther expiration for a credit to add time, reduce max loss, and increase potential profit.
\u{2022} Early Profit: Close at 50% of max profit to secure gains and free up capital.

VI. EXPIRATION OUTCOMES
\u{2022} If OTM: Both options expire worthless. Close early to remove gap risk.
\u{2022} If ITM: Close the trade before expiration to realize max loss and avoid assignment.
\u{2022} If Partially ITM: (Between strikes) Either close the trade or roll out in time. Never let a tested spread go through expiration to avoid unwanted short stock position.";

/// The description shown for the Calendar Spread playbook.
pub const CALENDAR_SPREAD_DESC: &'static str = "Neutral, defined risk trade where we bet on an increase in IV or the stock staying stagnant near our strikes so the short premium decays faster than the long premium.

I. CORE MECHANICS
\u{2022} Directional Assumption: Bullish (for Call Calendars)
\u{2022} IV Environment: Low (Ideally IV expands)
\u{2022} Ideal Expiration: 45 Days (Short leg)
\u{2022} Probability of Profit (POP): N/A

II. SETUP
1. Buy a Call/Put in a long-term expiration cycle.
2. Sell a Call/Put in a near-term expiration cycle at the SAME strike.
\u{2022} Goal: Enter for a net debit.

III. FINANCIAL PROFILE
\u{2022} Max Profit: Variable (Maximum when stock is at strike at front-month expiration).
\u{2022} Max Loss: Debit Paid.
\u{2022} Breakeven: Variable.
\u{2022} Profit Target: 10-25% of Debit Paid.

IV. THE GREEKS
\u{2022} Delta: Long (for Call Calendars)
\u{2022} Theta: Short (Note: Front month decays faster, but strategy captures extrinsic spread)
\u{2022} Vega: Long (Benefits from IV expansion)
\u{2022} Gamma: Dynamic

V. MANAGEMENT & DEFENSIVE TACTICS
\u{2022} Ideal Scenario: Stock trickles up to the strike over time. Long option expands while short option contracts.
\u{2022} Defensive Tactics: If the short option loses value, roll it out in time closer to the long option. This reduces net debit and max loss.
\u{2022} Volatility Play: If IV expands, the trade sees profit as long as it is not paired with a sharp move away from the strike.

VI. EXPIRATION OUTCOMES
\u{2022} If OTM: Short option expires worthless. Hold long option or roll short option to a new cycle to reduce cost basis.
\u{2022} If ATM: Highest potential profit spot. Short option decays completely leaving remaining extrinsic in the long option.
\u{2022} If ITM: Risk of assignment. Short call converts to 100 short shares (Short put to long shares). Close or roll to avoid buying power spikes.";

/// The description shown for the Short Strangle playbook.
pub const SHORT_STRANGLE_DESC: &'static str = "Neutral, undefined risk strategy consisting of an OTM short put and an OTM short call. We want the stock to stay between our strikes through expiration so the options expire worthless and we keep the credit received up front as profit.

I. CORE MECHANICS
\u{2022} Directional Assumption: Neutral
\u{2022} IV Environment: High (Ideal for maximizing credit)
\u{2022} Ideal Expiration: 45 Days to Expiration (DTE)
\u{2022} Probability of Profit (POP): 60% to 80%

II. SETUP
1. Sell 1 OTM Put.
2. Sell 1 OTM Call.
\u{2022} Note: We do not aim for a specific target credit but trust the premium will be sufficient if the market is liquid.

III. FINANCIAL PROFILE
\u{2022} Max Profit: Total Credit Received.
\u{2022} Max Loss: Unlimited.
\u{2022} Breakeven (Lower): Put Strike - Credit Received.
\u{2022} Breakeven (Upper): Call Strike + Credit Received.
\u{2022} Profit Target: 50% of Max Profit.

IV. THE GREEKS
\u{2022} Delta: Flat (Neutralized by two-way selling)
\u{2022} Theta: Positive (Time decay works on both sides)
\u{2022} Vega: Short (Hurt by volatility expansion)
\u{2022} Gamma: Short (Dangerous near expiration)

V. MANAGEMENT & DEFENSIVE TACTICS
\u{2022} Ideal Scenario: The stock stays between our strikes as time passes. This results in extrinsic value decay on both sides and the trade can be bought back for a profit over time.
\u{2022} Defensive Tactics: Strangles are undefined risk trades and can be adjusted very easily. If the stock moves towards or past one of our strikes, we can roll the other \"untested\" side closer to the \"tested\" side to pick up additional credit and reduce the delta of the position. We can also roll both strikes out in time to add more credit, or a combination of both.

VI. EXPIRATION OUTCOMES
\u{2022} If OTM at Expiration: Both strikes will expire worthless and we will realize max profit.
\u{2022} If ITM at Expiration: We can roll the strikes out in time to add credit and duration to the trade, or close the trade if our assumption has changed.";

/// The description shown for the Iron Butterfly (Iron Fly) playbook.
pub const IRON_FLY_DESC: &'static str = "Neutral, defined risk strategy consisting of an ATM put credit spread and ATM call credit spread. We profit from the underlying staying between our breakeven prices through expiration.

I. CORE MECHANICS
\u{2022} Directional Assumption: Neutral
\u{2022} IV Environment: High (Ideal for maximizing credit)
\u{2022} Ideal Expiration: 45 Days to Expiration (DTE)
\u{2022} Probability of Profit (POP): 60% to 80%

II. SETUP
1. Sell an ATM Straddle (ATM Put + ATM Call).
2. Buy an OTM Put wing.
3. Buy an OTM Call wing.
\u{2022} Goal: Collect a large credit, ideally targeting a 1:1 risk/reward ratio.

III. FINANCIAL PROFILE
\u{2022} Max Profit: Total Credit Received.
\u{2022} Max Loss: Widest Spread Width - Total Credit Received.
\u{2022} Breakeven (Lower): ATM Strike - Total Credit Received.
\u{2022} Breakeven (Upper): ATM Strike + Total Credit Received.
\u{2022} Profit Target: 25% of Max Profit.

IV. THE GREEKS
\u{2022} Delta: Flat (Neutral)
\u{2022} Theta: Long (Significant time decay at ATM strikes)
\u{2022} Vega: Short (Hurt by volatility expansion)
\u{2022} Gamma: Flat

V. MANAGEMENT & DEFENSIVE TACTICS
\u{2022} Ideal Scenario: Stock stays between breakevens as time passes, allowing extrinsic value to collapse.
\u{2022} Early Management: Target 25% of max profit due to high gamma risk as expiration approaches.
\u{2022} Defensive Tactics: Management is limited compared to undefined risk. If the stock moves outside of your long strikes, there is little that can be done without increasing risk.

VI. EXPIRATION OUTCOMES
\u{2022} Assignment Risk: Strategy will always have at least one strike ITM at expiration. Close or roll prior to expiration to avoid assignment.
\u{2022} Partially ITM: Close for profit if the price is within the breakeven range.
\u{2022} ITM at Expiration: Close the trade to avoid assignment fees and move on.";

/// The description shown for the Short Diagonal Spread playbook.
pub const SHORT_DIAGONAL_DESC: &'static str = "Directional credit strategy where we sell a long-term OTM option and buy a short-term closer-to-the-money option for protection. A more aggressive version of a credit spread that uses time differential to increase credit.

I. CORE MECHANICS
\u{2022} Directional Assumption: Bearish (Calls) / Bullish (Puts)
\u{2022} IV Environment: High (Ideally IV contracts)
\u{2022} Ideal Expiration: 60+ Days (Short leg) / 30 Days (Long leg)
\u{2022} Probability of Profit (POP): 60% to 75%

II. SETUP
1. Sell 1 OTM Call/Put in a back-month cycle.
2. Buy 1 OTM Call/Put in a front-month cycle at a strike closer to the money.
\u{2022} Goal: Enter for a net credit.

III. FINANCIAL PROFILE
\u{2022} Max Profit: Net Credit Received.
\u{2022} Max Loss: Defined by strikes, but varies based on time remaining in back month.
\u{2022} Breakeven: Variable.
\u{2022} Profit Target: 50% of Credit Received.

IV. THE GREEKS
\u{2022} Delta: Short (Calls) / Long (Puts)
\u{2022} Theta: Positive (Captures accelerated back-month decay)
\u{2022} Vega: Short (Hurt by IV expansion)
\u{2022} Gamma: Flat

V. MANAGEMENT & DEFENSIVE TACTICS
\u{2022} Ideal Scenario: Underlying stays away from short strike. Front month protection decays, and back month short decays even more.
\u{2022} Defensive Tactics: If tested, roll the front month out to match the back month, turning it into a standard vertical credit spread.

VI. EXPIRATION OUTCOMES
\u{2022} Front Month Expiry: If OTM, you are left with a naked short in the back month. Close or add new protection.
\u{2022} Back Month Expiry: Full profit realized if OTM.";

/// The description shown for the Put ZEBRA playbook.
pub const PUT_ZEBRA_DESC: &'static str = "A bearish back-ratio spread where we are buying two ITM puts and selling one ATM put to remove all extrinsic value and achieve 100 negative deltas. Acts like a synthetic short stock position with limited risk.

I. CORE MECHANICS
\u{2022} Directional Assumption: Bearish
\u{2022} IV Environment: Any
\u{2022} Ideal Expiration: Any (often 45-60 DTE)
\u{2022} Probability of Profit (POP): 50%

II. SETUP
1. Buy 2 ITM Puts (usually 70-80 Delta).
2. Sell 1 ATM Put (usually 50 Delta).
\u{2022} Goal: Zero extrinsic value on entry. The debit paid should equal the intrinsic value of the spread.

III. FINANCIAL PROFILE
\u{2022} Max Profit: Unlimited (to the downside, until stock hits 0).
\u{2022} Max Loss: Debit Paid (Defined Risk).
\u{2022} Breakeven: Short Put Strike - Any Extrinsic Value Paid.
\u{2022} Profit Target: 25% of Debit Paid.

IV. THE GREEKS
\u{2022} Delta: Short / Dynamic (Targeting 100 negative deltas)
\u{2022} Theta: Flat (Neutralized by back-ratio)
\u{2022} Vega: Flat (Neutralized by back-ratio)
\u{2022} Gamma: Dynamic

V. MANAGEMENT & DEFENSIVE TACTICS
\u{2022} Ideal Scenario: Stock moves down. Position gains value at the same rate as 100 short shares without borrowing costs or unlimited risk.
\u{2022} Defensive Tactics: Roll the short put up a few strikes if the stock rallies. This will decrease the short delta exposure on a rally and reduce overall debit paid.
\u{2022} Stock Replacement: Great strategy for 100-delta short exposure with defined risk and no margin calls.

VI. EXPIRATION OUTCOMES
\u{2022} If OTM: Realize max loss (debit paid upfront).
\u{2022} If ITM: Close trade for a profit.
\u{2022} If Partially ITM: Close or restructure in a later cycle. Avoid assignment by closing prior to expiration.";

/// The description shown for the Call ZEBRA playbook.
pub const CALL_ZEBRA_DESC: &'static str = "A bullish back-ratio spread where we are buying two ITM calls and selling one ATM call to remove all extrinsic value and achieve 100 positive deltas. Acts like a synthetic long stock position with limited risk.

I. CORE MECHANICS
\u{2022} Directional Assumption: Bullish
\u{2022} IV Environment: Any
\u{2022} Ideal Expiration: Any (often 45-60 DTE)
\u{2022} Probability of Profit (POP): 50%

II. SETUP
1. Buy 2 ITM Calls (usually 70-80 Delta).
2. Sell 1 ATM Call (usually 50 Delta).
\u{2022} Goal: Zero extrinsic value on entry. The debit paid should equal the intrinsic value of the spread.

III. FINANCIAL PROFILE
\u{2022} Max Profit: Unlimited (to the upside).
\u{2022} Max Loss: Debit Paid (Defined Risk).
\u{2022} Breakeven: Short Call Strike + Any Extrinsic Value Paid.
\u{2022} Profit Target: 25% of Debit Paid.

IV. THE GREEKS
\u{2022} Delta: Long / Dynamic (Targeting 100 positive deltas)
\u{2022} Theta: Flat (Neutralized by back-ratio)
\u{2022} Vega: Flat (Neutralized by back-ratio)
\u{2022} Gamma: Dynamic

V. MANAGEMENT & DEFENSIVE TACTICS
\u{2022} Ideal Scenario: Stock moves up. Position gains value at the same rate as 100 shares of stock without theta decay drag.
\u{2022} Defensive Tactics: Roll the short call down to a lower strike if the stock sells off to reduce the total debit paid.
\u{2022} Stock Replacement: Great strategy for 100-delta exposure with limited risk and zero extrinsic cost.

VI. EXPIRATION OUTCOMES
\u{2022} If OTM: Realize max loss (debit paid upfront).
\u{2022} If ITM: Close trade for a profit.
\u{2022} If Partially ITM: Close or restructure in a later cycle. Avoid assignment by closing prior to expiration.";

/// The description shown for the Poor Man's Covered Call playbook.
pub const PMCC_DESC: &'static str = "A bullish synthetic covered call strategy that consists of an ITM long-term call to replicate 100 shares of stock, with an ATM/OTM short call in a near-term cycle to reduce cost basis.

I. CORE MECHANICS
\u{2022} Directional Assumption: Bullish
\u{2022} IV Environment: Low (Ideally IV expands)
\u{2022} Ideal Expiration: 45 to 60 Days (Short leg)
\u{2022} Probability of Profit (POP): 50% to 60%

II. SETUP
1. Buy an ITM Call in a long-term expiration cycle (80+ Delta).
2. Sell an OTM Call in a near-term expiration cycle (30 Delta).
\u{2022} Golden Rule: Debit paid should not exceed 75% of the width between strikes.

III. FINANCIAL PROFILE
\u{2022} Max Profit: Distance Between Strikes - Debit Paid + Estimated Extrinsic in Long Option.
\u{2022} Max Loss: Debit Paid.
\u{2022} Breakeven: Long Call Strike + Debit Paid.
\u{2022} Profit Target: 50% of Estimated Max Profit.

IV. THE GREEKS
\u{2022} Delta: Long
\u{2022} Theta: Flat / Neutral
\u{2022} Vega: Long (Benefits from IV expansion)
\u{2022} Gamma: Dynamic

V. MANAGEMENT & DEFENSIVE TACTICS
\u{2022} Ideal Scenario: Stock moves up to the short call strike. Capture max extrinsic from short call + gain on long call.
\u{2022} Defensive Tactics: If short call loses value, roll it out in time to add extrinsic value. Can also move strike down in same cycle (but not below breakeven).
\u{2022} Volatility: If IV expands, extrinsic value moves against us temporarily but we can adjust short call if paired with selloff.

VI. EXPIRATION OUTCOMES
\u{2022} If OTM: Short call expires worthless. Deploy another one in a further cycle.
\u{2022} If ITM: Max profit reached - close the trade.";

/// The description shown for the Long Diagonal Spread playbook.
pub const LONG_DIAGONAL_DESC: &'static str = "Directional, defined risk strategy that combines a long-term ITM option with a short-term OTM option at a different strike. Effectively \"Poor Man's\" versions of covered calls or cash secured puts.

I. CORE MECHANICS
\u{2022} Directional Assumption: Bullish (Calls) / Bearish (Puts)
\u{2022} IV Environment: Low (Ideally IV expands)
\u{2022} Ideal Expiration: LEAPS (Long leg) / 45 Days (Short leg)
\u{2022} Probability of Profit (POP): 50% to 60%

II. SETUP
1. Buy 1 ITM Call/Put in a long-term cycle (80+ Delta).
2. Sell 1 OTM Call/Put in a near-term cycle (30 Delta).
\u{2022} Golden Rule: Debit paid should be less than 75% of the width of the strikes (for Call Diagonals).

III. FINANCIAL PROFILE
\u{2022} Max Profit: Unlimited (theoretically) or Width of Strikes - Debit + Extrinsic in Long.
\u{2022} Max Loss: Debit Paid (Defined Risk).
\u{2022} Breakeven: Long Strike + Debit Paid.
\u{2022} Profit Target: 50% of Estimated Max Profit.

IV. THE GREEKS
\u{2022} Delta: Long (Calls) / Short (Puts)
\u{2022} Theta: Neutral / Positive (Front month decay offsets back month)
\u{2022} Vega: Long (Benefits from IV expansion)
\u{2022} Gamma: Dynamic

V. MANAGEMENT & DEFENSIVE TACTICS
\u{2022} Ideal Scenario: Underlying moves towards short strike. Capture max extrinsic from short leg while long leg gains intrinsic value.
\u{2022} Rolling: If short strike is tested, roll out in time for a credit to add more extrinsic value.
\u{2022} Volatility Play: If IV spikes, the long-term option gains significant value.

VI. EXPIRATION OUTCOMES
\u{2022} If OTM: Short leg expires worthless. Hold long leg or sell another short leg.
\u{2022} If ITM: Position reaches peak profit. Close the entire spread.";

/// The description shown for the Long Put Vertical Spread playbook.
pub const LONG_PUT_VERTICAL_DESC: &'static str = "Bearish, defined risk debit trade where we are betting on the stock moving below our short put strike price by the expiration of our contract.

I. CORE MECHANICS
\u{2022} Directional Assumption: Bearish
\u{2022} IV Environment: Any
\u{2022} Days to Expiration: 45
\u{2022} Probability of Profit: 50% to 60%

II. SETUP
\u{2022} 1. Buy an ITM put
\u{2022} 2. Sell an ATM/OTM put
\u{2022} Max Profit: Distance Between Strikes - Debit Paid
\u{2022} Max Loss: Debit Paid
\u{2022} Profit Target: 50% of Max Profit
\u{2022} Breakeven: Long Put Strike - Debit Paid

III. GREEKS
\u{2022} Delta: Short
\u{2022} Vega: Flat
\u{2022} Theta: Flat
\u{2022} Gamma: Flat

IV. HOW THE TRADE WORKS
\u{2022} NOT IDEAL: The stock increases in value. The value of the long put spread would decrease, which means the spread will be less valuable to sell to close compared to the original purchase price, which would result in a loss.
\u{2022} IDEAL: The stock decreases in value. A long put spread is a directionally bearish position - so ideally the stock price decreases so that the long put strike increases in value to a greater degree than the short put.

V. VOLATILITY
\u{2022} IF VOLATILITY EXPANDS: Extrinsic value may have increased - but this is primarily a bearish trade and if the increase in IV is paired with a bearish move, we may see profitability and can close if we are happy with the exit price.
\u{2022} IF VOLATILITY CONTRACTS: Extrinsic value may have decreased, but this could be paired with a rally in the product. We may consider holding the position, or rolling the short option up closer to the long option, but not above the breakeven price.

VI. EXPIRATION
\u{2022} IF ITM AT EXPIRATION: The trade will be at max profit. We close the trade.
\u{2022} IF OTM AT EXPIRATION: The trade will be at max loss, as both options will have lost all of their value. We let the trade expire worthless.
\u{2022} IF PARTIALLY ITM AT EXPIRATION: We either roll out in time to extend the trade or close it. We avoid letting these trades go through expiration, because if the long put is ITM and the short put is OTM we can come back to the market the next trading session with 100 shares of short stock.

VII. TAKEAWAYS
\u{2022} 1. Vertical spreads have a less volatile P/L because of the long option that defines our risk. If we see profit on the short option, we will see losses on the long option and vice versa. For this reason, we should expect to be in spread trades longer than naked options to reach profit targets.
\u{2022} 2. With spreads, it's important to realize that options will be exercised if they are ITM and held through expiration. If one strike is ITM and the other moves OTM, close the trade prior to expiration to avoid unwanted shares.";

/// The description shown for the Long Call Vertical Spread playbook.
pub const LONG_CALL_VERTICAL_DESC: &'static str = "Bullish defined risk debit trade where we are betting on the stock moving above our short call strike price by the expiration of our contract.

I. CORE MECHANICS
\u{2022} Directional Assumption: Bullish
\u{2022} IV Environment: Any
\u{2022} Days to Expiration: 45
\u{2022} Probability of Profit: 40% to 60%

II. SETUP
\u{2022} 1. Buy an ITM call
\u{2022} 2. Sell an ATM/OTM call
\u{2022} Max Profit: Distance Between Strikes - Debit Paid
\u{2022} Max Loss: Debit Paid
\u{2022} Profit Target: 50% of Max Profit
\u{2022} Breakeven: Long Call Strike + Debit Paid

III. GREEKS
\u{2022} Delta: Long
\u{2022} Vega: Flat
\u{2022} Theta: Flat
\u{2022} Gamma: Flat

IV. HOW THE TRADE WORKS
\u{2022} IDEAL: The stock increases in value. A long call spread is a directionally bullish position - so ideally the stock price rises so that the long call strike increases in value to a greater degree than the short call, resulting in a profit.
\u{2022} NOT IDEAL: The stock decreases in value. The value of the long call spread would decrease, which means the spread will be less valuable to sell to close compared to the original purchase price, which would result in a loss.

V. VOLATILITY
\u{2022} IF VOLATILITY EXPANDS: We may hold the position - this may be paired with a sell-off in the stock price, but our risk is capped at the debit paid so we typically let the trade play out. However, we can close the trade if our assumption has changed.
\u{2022} IF VOLATILITY CONTRACTS: We may hold the position - if this is paired with a bullish move in the stock price, we may see profit in the spread and we can close if we're happy with the trade.

VI. EXPIRATION
\u{2022} IF OTM AT EXPIRATION: The trade will be at max loss, as both options will have lost all value. We let the trade expire worthless.
\u{2022} IF ITM AT EXPIRATION: Both options will be trading for intrinsic value, and the trade will be at max profit. To avoid assignment fees and the possibility of one of the options moving OTM, close the trade prior to expiration.
\u{2022} IF PARTIALLY ITM AT EXPIRATION: We either close the trade or roll out in time to extend it. We avoid letting these trades go through expiration because if the long call is ITM and the short call is OTM, we can come back to the market in the next trading session with 100 shares of stock.

VII. TAKEAWAYS
\u{2022} 1. Vertical spreads have a less volatile P/L because of the long option that defines our risk. For this reason, we should expect to be in spread trades longer than naked options to reach profit targets.
\u{2022} 2. Options will be exercised if they are ITM and held through expiration. If one strike is ITM and the other moves OTM, close the trade prior to expiration to avoid unwanted shares.";

/// The thesis of the Ratio Spread playbook.
pub fn build_ratio_spread_thesis() -> (r: &'static str)
    ensures
        r@ == RATIO_SPREAD_THESIS@,
{
    RATIO_SPREAD_THESIS
}

/// The thesis of the Put Broken Wing Butterfly playbook.
pub fn build_put_bwb_thesis() -> (r: &'static str)
    ensures
        r@ == PUT_BWB_THESIS@,
{
    PUT_BWB_THESIS
}

/// The description of the Short Put Vertical playbook.
pub fn build_short_put_vertical_desc() -> (r: &'static str)
    ensures
        r@ == SHORT_PUT_VERTICAL_DESC@,
{
    SHORT_PUT_VERTICAL_DESC
}

/// The description of the Cash Secured Put playbook.
pub fn build_cash_secured_put_desc() -> (r: &'static str)
    ensures
        r@ == CASH_SECURED_PUT_DESC@,
{
    CASH_SECURED_PUT_DESC
}

/// The description of the Covered Call playbook.
pub fn build_covered_call_desc() -> (r: &'static str)
    ensures
        r@ == COVERED_CALL_DESC@,
{
    COVERED_CALL_DESC
}

/// The description of the Iron Condor playbook.
pub fn build_iron_condor_desc() -> (r: &'static str)
    ensures
        r@ == IRON_CONDOR_DESC@,
{
    IRON_CONDOR_DESC
}

/// The description of the Short Call Vertical playbook.
pub fn build_short_call_vertical_desc() -> (r: &'static str)
    ensures
        r@ == SHORT_CALL_VERTICAL_DESC@,
{
    SHORT_CALL_VERTICAL_DESC
}

/// The description of the Calendar Spread playbook.
pub fn build_calendar_spread_desc() -> (r: &'static str)
    ensures
        r@ == CALENDAR_SPREAD_DESC@,
{
    CALENDAR_SPREAD_DESC
}

/// The description of the Short Strangle playbook.
pub fn build_short_strangle_desc() -> (r: &'static str)
    ensures
        r@ == SHORT_STRANGLE_DESC@,
{
    SHORT_STRANGLE_DESC
}

/// The description of the Iron Butterfly (Iron Fly) playbook.
pub fn build_iron_fly_desc() -> (r: &'static str)
    ensures
        r@ == IRON_FLY_DESC@,
{
    IRON_FLY_DESC
}

/// The description of the Short Diagonal Spread playbook.
pub fn build_short_diagonal_desc() -> (r: &'static str)
    ensures
        r@ == SHORT_DIAGONAL_DESC@,
{
    SHORT_DIAGONAL_DESC
}

/// The description of the Put ZEBRA playbook.
pub fn build_put_zebra_desc() -> (r: &'static str)
    ensures
        r@ == PUT_ZEBRA_DESC@,
{
    PUT_ZEBRA_DESC
}

/// The description of the Call ZEBRA playbook.
pub fn build_call_zebra_desc() -> (r: &'static str)
    ensures
        r@ == CALL_ZEBRA_DESC@,
{
    CALL_ZEBRA_DESC
}

/// The description of the Poor Man's Covered Call playbook.
pub fn build_pmcc_desc() -> (r: &'static str)
    ensures
        r@ == PMCC_DESC@,
{
    PMCC_DESC
}

/// The description of the Long Diagonal Spread playbook.
pub fn build_long_diagonal_desc() -> (r: &'static str)
    ensures
        r@ == LONG_DIAGONAL_DESC@,
{
    LONG_DIAGONAL_DESC
}

/// The description of the Long Put Vertical Spread playbook.
pub fn build_long_put_vertical_desc() -> (r: &'static str)
    ensures
        r@ == LONG_PUT_VERTICAL_DESC@,
{
    LONG_PUT_VERTICAL_DESC
}

/// The description of the Long Call Vertical Spread playbook.
pub fn build_long_call_vertical_desc() -> (r: &'static str)
    ensures
        r@ == LONG_CALL_VERTICAL_DESC@,
{
    LONG_CALL_VERTICAL_DESC
}

/// A playbook that the journal seeds when it is missing: its name, its
/// spread type key and its description.
#[derive(Clone, Copy, Debug)]
pub struct PlaybookSeed {
    pub name: &'static str,
    pub spread_type: &'static str,
    pub description: &'static str,
}

/// A seed as plain text: (name, spread type, description).
pub open spec fn seed_view(s: PlaybookSeed) -> (Seq<char>, Seq<char>, Seq<char>) {
    (s.name@, s.spread_type@, s.description@)
}

/// The playbooks a fresh journal is given, in the order they are seeded.
pub open spec fn default_seed_catalog() -> Seq<(Seq<char>, Seq<char>, Seq<char>)> {
    seq![        ("Short Put Vertical"@, "short_put_vertical"@, SHORT_PUT_VERTICAL_DESC@),
        ("Cash Secured Put"@, "cash_secured_put"@, CASH_SECURED_PUT_DESC@),
        ("Covered Call"@, "covered_call"@, COVERED_CALL_DESC@),
        ("Iron Condor"@, "iron_condor"@, IRON_CONDOR_DESC@),
        ("Short Call Vertical"@, "short_call_vertical"@, SHORT_CALL_VERTICAL_DESC@),
        ("Calendar Spread"@, "calendar_spread"@, CALENDAR_SPREAD_DESC@),
        ("Short Strangle"@, "strangle"@, SHORT_STRANGLE_DESC@),
        ("Iron Butterfly (Iron Fly)"@, "iron_butterfly"@, IRON_FLY_DESC@),
        ("Short Diagonal Spread"@, "short_diagonal_spread"@, SHORT_DIAGONAL_DESC@),
        ("Put ZEBRA"@, "pzbr"@, PUT_ZEBRA_DESC@),
        ("Call ZEBRA"@, "czbr"@, CALL_ZEBRA_DESC@),
        ("Poor Man's Covered Call"@, "pmcc"@, PMCC_DESC@),
        ("Long Diagonal Spread"@, "long_diagonal_spread"@, LONG_DIAGONAL_DESC@),
        ("Long Put Vertical Spread"@, "long_put_vertical"@, LONG_PUT_VERTICAL_DESC@),
        ("Long Call Vertical Spread"@, "long_call_vertical"@, LONG_CALL_VERTICAL_DESC@),
    ]
}

fn seed(name: &'static str, spread_type: &'static str, description: &'static str) -> (s: PlaybookSeed)
    ensures
        seed_view(s) == (name@, spread_type@, description@),
{
    PlaybookSeed { name, spread_type, description }
}

/// The default playbooks, in the order they are seeded.
pub fn default_playbook_seeds() -> (r: Vec<PlaybookSeed>)
    ensures
        r@.map_values(|s: PlaybookSeed| seed_view(s)) == default_seed_catalog(),
{
    let mut v: Vec<PlaybookSeed> = Vec::new();
    v.push(seed("Short Put Vertical", "short_put_vertical", build_short_put_vertical_desc()));
    v.push(seed("Cash Secured Put", "cash_secured_put", build_cash_secured_put_desc()));
    v.push(seed("Covered Call", "covered_call", build_covered_call_desc()));
    v.push(seed("Iron Condor", "iron_condor", build_iron_condor_desc()));
    v.push(seed("Short Call Vertical", "short_call_vertical", build_short_call_vertical_desc()));
    v.push(seed("Calendar Spread", "calendar_spread", build_calendar_spread_desc()));
    v.push(seed("Short Strangle", "strangle", build_short_strangle_desc()));
    v.push(seed("Iron Butterfly (Iron Fly)", "iron_butterfly", build_iron_fly_desc()));
    v.push(seed("Short Diagonal Spread", "short_diagonal_spread", build_short_diagonal_desc()));
    v.push(seed("Put ZEBRA", "pzbr", build_put_zebra_desc()));
    v.push(seed("Call ZEBRA", "czbr", build_call_zebra_desc()));
    v.push(seed("Poor Man's Covered Call", "pmcc", build_pmcc_desc()));
    v.push(seed("Long Diagonal Spread", "long_diagonal_spread", build_long_diagonal_desc()));
    v.push(seed("Long Put Vertical Spread", "long_put_vertical", build_long_put_vertical_desc()));
    v.push(seed("Long Call Vertical Spread", "long_call_vertical", build_long_call_vertical_desc()));
    proof {
        assert(v@.map_values(|s: PlaybookSeed| seed_view(s)) =~= default_seed_catalog());
    }
    v
}

/// The Ratio Spread playbook, seeded on its own.
pub fn ratio_spread_seed() -> (s: PlaybookSeed)
    ensures
        seed_view(s) == ("Ratio Spread"@, "custom"@, RATIO_SPREAD_THESIS@),
{
    seed("Ratio Spread", "custom", build_ratio_spread_thesis())
}

/// The Put Broken Wing Butterfly playbook, seeded on its own.
pub fn put_bwb_seed() -> (s: PlaybookSeed)
    ensures
        seed_view(s) == ("Put Broken Wing Butterfly"@, "put_broken_wing_butterfly"@, PUT_BWB_THESIS@),
{
    seed("Put Broken Wing Butterfly", "put_broken_wing_butterfly", build_put_bwb_thesis())
}

/// Positions, in order, of the names of `names` that `existing` lacks.
pub open spec fn unseeded(names: Seq<Seq<char>>, existing: Seq<Seq<char>>) -> Seq<int>
    decreases names.len(),
{
    if names.len() == 0 {
        Seq::empty()
    } else {
        let prev = unseeded(names.drop_last(), existing);
        if existing.contains(names.last()) { prev } else { prev.push(names.len() - 1) }
    }
}

/// Which of `seeds` to insert into a journal whose playbooks are named
/// `existing`: those whose name is not taken yet, in catalogue order.
pub fn seeds_to_insert(seeds: &[PlaybookSeed], existing: &[String]) -> (r: Vec<usize>)
    ensures
        r@.map_values(|i: usize| i as int) == unseeded(
            seeds@.map_values(|s: PlaybookSeed| s.name@),
            existing@.map_values(|t: String| t@),
        ),
{
    let ghost names = seeds@.map_values(|s: PlaybookSeed| s.name@);
    let mut r: Vec<usize> = Vec::new();
    let mut i: usize = 0;
    while i < seeds.len()
        invariant
            i <= seeds@.len(),
            names == seeds@.map_values(|s: PlaybookSeed| s.name@),
            r@.map_values(|k: usize| k as int) == unseeded(names.take(i as int), existing@.map_values(|t: String| t@)),
        decreases seeds@.len() - i,
    {
        proof {
            assert(names.take(i + 1).drop_last() =~= names.take(i as int));
            assert(names.take(i + 1).last() == seeds@[i as int].name@);
        }
        if !str_in_list(existing, seeds[i].name) {
            r.push(i);
            proof {
                assert(r@.map_values(|k: usize| k as int) =~= unseeded(names.take(i as int), existing@.map_values(|t: String| t@)).push(i as int));
            }
        }
        i = i + 1;
    }
    proof {
        assert(names.take(i as int) =~= names);
    }
    r
}

/// The names at positions `idx` of `names`, in that order.
pub open spec fn names_at(names: Seq<Seq<char>>, idx: Seq<int>) -> Seq<Seq<char>> {
    idx.map_values(|i: int| names[i])
}

proof fn lemma_unseeded_members(names: Seq<Seq<char>>, existing: Seq<Seq<char>>)
    ensures
        forall|j: int| #[trigger] unseeded(names, existing).contains(j) <==> (0 <= j < names.len() && !existing.contains(names[j])),
    decreases names.len(),
{
    if names.len() > 0 {
        let p = names.drop_last();
        lemma_unseeded_members(p, existing);
        let prev = unseeded(p, existing);
        let last = names.len() - 1;
        assert forall|j: int| #[trigger] unseeded(names, existing).contains(j) <==> (0 <= j < names.len() && !existing.contains(names[j])) by {
            if 0 <= j < last {
                assert(p[j] == names[j]);
            }
            if existing.contains(names.last()) {
                assert(unseeded(names, existing) == prev);
                if j == last {
                    assert(!prev.contains(j));
                }
            } else {
                assert(unseeded(names, existing) == prev.push(last));
                if prev.push(last).contains(j) {
                    let k = choose|k: int| 0 <= k < prev.len() + 1 && prev.push(last)[k] == j;
                    if k < prev.len() {
                        assert(prev[k] == j);
                    }
                }
                if prev.contains(j) {
                    let k = choose|k: int| 0 <= k < prev.len() && prev[k] == j;
                    assert(prev.push(last)[k] == j);
                }
                if j == last {
                    assert(prev.push(last)[prev.len() as int] == j);
                }
            }
        }
    }
}

/// Seeding twice adds nothing: once the playbooks that `seeds_to_insert`
/// picks are stored beside the existing ones, every seed name is taken and
/// a second pass picks none.
pub proof fn lemma_seeding_twice_adds_nothing(names: Seq<Seq<char>>, existing: Seq<Seq<char>>)
    ensures
        ({
            let after = existing + names_at(names, unseeded(names, existing));
            &&& forall|j: int| 0 <= j < names.len() ==> after.contains(#[trigger] names[j])
            &&& unseeded(names, after) == Seq::<int>::empty()
        }),
{
    let picked = unseeded(names, existing);
    let after = existing + names_at(names, picked);
    lemma_unseeded_members(names, existing);
    lemma_unseeded_members(names, after);
    assert forall|j: int| 0 <= j < names.len() implies after.contains(#[trigger] names[j]) by {
        if existing.contains(names[j]) {
            let w = choose|w: int| 0 <= w < existing.len() && existing[w] == names[j];
            assert(after[w] == names[j]);
        } else {
            assert(picked.contains(j));
            let k = choose|k: int| 0 <= k < picked.len() && picked[k] == j;
            assert(after[existing.len() + k] == names_at(names, picked)[k]);
        }
    }
    if unseeded(names, after).len() > 0 {
        let j = unseeded(names, after)[0];
        assert(unseeded(names, after).contains(j));
    }
}

/// Whether a stored thesis still has the old plain-prose layout: it exists
/// and has no bullet line (`"\n• "`).
pub open spec fn needs_bullet_upgrade_spec(desc: Option<Seq<char>>) -> bool {
    match desc {
        Some(d) => !contains_sub(d, "\n• "@),
        None => false,
    }
}

/// Whether the stored Ratio Spread thesis must be replaced by the bullet
/// layout.
pub fn needs_bullet_upgrade(desc: Option<&str>) -> (r: bool)
    ensures
        r == needs_bullet_upgrade_spec(match desc { Some(d) => Some(d@), None => None }),
{
    match desc {
        Some(d) => !str_contains_str(d, "\n• "),
        None => false,
    }
}

/// Whether a stored Put Broken Wing Butterfly playbook still carries the old
/// spread type (none, or `custom`) and must be given its own.
pub fn bwb_needs_spread_type(spread_type: Option<&str>) -> (r: bool)
    ensures
        r == match spread_type { Some(t) => t@ == "custom"@, None => true },
{
    match spread_type {
        Some(t) => str_eq(t, "custom"),
        None => true,
    }
}

/// The spread type a Zebra playbook must carry, given its lower-cased name
/// and its current spread type (`""` when it has none); `None` when the
/// playbook is no Zebra or already carries it.
pub open spec fn zebra_update_spec(name_lc: Seq<char>, current: Seq<char>) -> Option<Seq<char>> {
    let is_call = contains_sub(name_lc, "call zebra"@) || contains_sub(name_lc, "call_zebra"@)
        || current == "call_zebra"@ || current == "czbr"@;
    let is_any = contains_sub(name_lc, "zebra"@) || current == "zebra"@ || current == "call_zebra"@
        || current == "pzbr"@ || current == "czbr"@;
    let target = if is_call { "czbr"@ } else { "pzbr"@ };
    if is_any && current != target { Some(target) } else { None }
}

/// The spread type update for a playbook whose name is already lower-cased.
pub fn zebra_update_for(name_lc: &str, current: &str) -> (r: Option<String>)
    ensures
        match r {
            Some(t) => zebra_update_spec(name_lc@, current@) == Some(t@),
            None => zebra_update_spec(name_lc@, current@) is None,
        },
{
    let is_call = str_contains_str(name_lc, "call zebra") || str_contains_str(name_lc, "call_zebra")
        || str_eq(current, "call_zebra") || str_eq(current, "czbr");
    let is_any = str_contains_str(name_lc, "zebra") || str_eq(current, "zebra")
        || str_eq(current, "call_zebra") || str_eq(current, "pzbr") || str_eq(current, "czbr");
    let target = if is_call { "czbr" } else { "pzbr" };
    if is_any && !str_eq(current, target) {
        Some(target.to_string())
    } else {
        None
    }
}

/// The spread type update that the Zebra migration applies to a playbook
/// named `name` whose spread type is `spread_type`.
pub fn zebra_update(name: &str, spread_type: Option<&str>) -> (r: Option<String>)
    ensures
        match r {
            Some(t) => zebra_update_spec(lowercase_of(name@), match spread_type { Some(s) => s@, None => ""@ }) == Some(t@),
            None => zebra_update_spec(lowercase_of(name@), match spread_type { Some(s) => s@, None => ""@ }) is None,
        },
{
    let name_lc = lowercase(name);
    let current: &str = match spread_type {
        Some(s) => s,
        None => "",
    };
    zebra_update_for(name_lc.as_str(), current)
}

} // verus!
